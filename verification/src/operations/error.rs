use vstd::prelude::*;

use crate::config::blocks::cutters::{CutPosition, Delay, IconSize};
use crate::generation::error::GenerationError;
use crate::util::corners::{Corner, CornerType};

verus! {

/// The crop that did not fit into the source sheet: the corner type and the
/// corner it was cut for, or the signature of the literal tile; the column
/// and the frame; and the rectangle that was asked for.
#[derive(Copy, Clone, Eq, PartialEq, Structural, Debug)]
pub struct CropFault {
    pub corner_type: Option<CornerType>,
    pub corner: Option<Corner>,
    pub prefab: Option<u8>,
    pub column: u32,
    pub frame: u32,
    pub x: u64,
    pub y: u64,
    pub width: u32,
    pub height: u32,
}

#[derive(Debug)]
pub enum ProcessorError {
    /// The input is not of the format that the operation works on.
    FormatError(String),
    /// The icon file cannot be turned back into a sheet.
    DmiError(String),
    /// The map icon could not be drawn.
    GenerationError(GenerationError),
    /// The configured values do not allow the operation.
    ConfigError,
    /// The height of the sheet is no multiple of the height of a tile.
    FrameHeight { image_height: u32, icon_height: u32 },
    /// A cut lies outside the tile.
    CutOutsideIcon { cut: CutPosition, icon: IconSize },
    /// No column is configured for a corner type that is needed.
    MissingPosition(CornerType),
    /// A crop reaches beyond the source sheet.
    CropOutOfBounds(CropFault),
    /// Directions are asked for together with diagonal smoothing: no turn
    /// is defined for a diagonal neighbour.
    DiagonalDirections,
    /// The output canvas is too large to be held in memory.
    OutputTooLarge { width: u32, height: u32 },
    /// The delays of a state are not those of the states before it: the
    /// name of the state, its delays, and those of the rest of the file.
    DelayMismatch { state: String, found: Option<Vec<Delay>>, expected: Option<Vec<Delay>> },
}

pub type ProcessorResult<T> = Result<T, ProcessorError>;

} // verus!
