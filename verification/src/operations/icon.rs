use image::DynamicImage;
use vstd::prelude::*;

use crate::config::blocks::cutters::Delay;

verus! {

/// One state of an icon file: a name and the frames of each direction, all
/// frames of the first direction first.
#[derive(Clone, Debug)]
pub struct IconState {
    pub name: String,
    pub dirs: u8,
    pub frames: u32,
    pub images: Vec<DynamicImage>,
    pub delay: Option<Vec<Delay>>,
}

/// An icon file: states of one size.
#[derive(Clone, Debug)]
pub struct Icon {
    pub width: u32,
    pub height: u32,
    pub states: Vec<IconState>,
}

} // verus!
