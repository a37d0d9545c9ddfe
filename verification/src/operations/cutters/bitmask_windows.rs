use image::DynamicImage;
use vstd::prelude::*;

use crate::config::blocks::cutters::{
    Animation, CutPosition, Delay, IconSize, OutputIconPosition, OutputIconSize, Positions,
};
use crate::operations::cutters::bitmask_slice::{canvas_fits, fits_in_memory, BitmaskSlice};
use crate::operations::error::ProcessorError;
use crate::operations::icon::{Icon, IconState};
use crate::operations::{IconOperationConfig, InputIcon, OperationMode, ProcessorPayload};
use crate::util::adjacency::Adjacency;
use crate::util::color::Color;
use crate::util::corners::CornerType;
use crate::util::raster::{clamped, crop_clamped, image_rows, image_size};
use crate::util::text::{decimal, decimal_text};
use crate::operations::cutters::{extend_delays, extended};

verus! {

/// Cuts a sheet of windows: two sets of five corner types side by side,
/// the second the alternative look. Every tile is handed out in two parts:
/// the upper part and the lower part.
#[derive(Clone, PartialEq, Debug)]
pub struct BitmaskWindows {
    pub icon_size: IconSize,
    pub output_icon_pos: OutputIconPosition,
    pub output_icon_size: OutputIconSize,
    pub animation: Option<Animation>,
}

/// How many of the signatures below `bound` have no orphaned corner.
pub open spec fn sound_below(bound: int) -> int
    decreases bound,
{
    if bound <= 0 {
        0
    } else {
        sound_below(bound - 1) + if Adjacency::of((bound - 1) as u8).no_orphan() {
            1int
        } else {
            0
        }
    }
}

/// The name of a part of a window: the signature, after `alt-` for the
/// alternative look, and the part.
pub open spec fn part_name(bits: u8, part: int) -> Seq<char> {
    (if part >= 2 {
        "alt-"@
    } else {
        Seq::<char>::empty()
    }) + decimal(bits as nat) + (if part % 2 == 0 {
        "-upper"@
    } else {
        "-lower"@
    })
}

impl BitmaskWindows {
    /// How a look of the sheet is cut: tiles cut in the middle, smoothed
    /// along the diagonals, with the five corner types in the first five
    /// columns, or in the next five for the alternative look.
    pub open spec fn slice(self, alt: bool) -> BitmaskSlice {
        let first: u32 = if alt {
            5
        } else {
            0
        };
        BitmaskSlice {
            output_name: None,
            produce_dirs: false,
            smooth_diagonally: true,
            icon_size: self.icon_size,
            output_icon_pos: self.output_icon_pos,
            output_icon_size: OutputIconSize { x: self.icon_size.x, y: self.icon_size.y },
            positions: Positions {
                convex: Some(first),
                concave: Some((first + 1) as u32),
                horizontal: Some((first + 2) as u32),
                vertical: Some((first + 3) as u32),
                flat: Some((first + 4) as u32),
            },
            cut_pos: CutPosition { x: self.icon_size.x / 2, y: self.icon_size.y / 2 },
            animation: None,
            prefabs: None,
            prefab_overlays: None,
            map_icon: None,
        }
    }

    /// Where a part begins on the tile: the upper part at the top, the
    /// lower part half a tile down.
    pub open spec fn part_top(self, part: int) -> int {
        if part % 2 == 0 {
            0
        } else {
            (self.icon_size.y / 2) as int
        }
    }

    /// The delays of the frames.
    pub open spec fn delays(self, num_frames: int) -> Option<Seq<Delay>> {
        match self.animation {
            Some(animation) => Some(extended(animation.delays@, num_frames)),
            None => None,
        }
    }

    /// `state` is a part of the window of a signature: of the output size,
    /// cut from the tile frame by frame.
    pub open spec fn part_made(self, rows: Seq<Seq<Color>>, bits: u8, part: int, state: IconState) -> bool {
        let slice = self.slice(part >= 2);
        &&& state.name@ == part_name(bits, part)
        &&& state.dirs == 1
        &&& state.frames == slice.frame_count(rows)
        &&& state.images.len() == slice.frame_count(rows)
        &&& forall|frame: int|
            0 <= frame < state.images.len() ==> image_rows(#[trigger] state.images[frame])
                == clamped(
                slice.tile(rows, bits, frame),
                0,
                self.part_top(part),
                self.output_icon_size.x as int,
                self.output_icon_size.y as int,
            )
        &&& match state.delay {
            Some(delays) => self.delays(slice.frame_count(rows)) == Some(delays@),
            None => self.delays(slice.frame_count(rows)) is None,
        }
    }

    /// The first `count` states of `states` are the parts of the windows
    /// of the signatures below `bound` that have no orphaned corner, four
    /// for each in the order of the signatures: the upper and the lower
    /// part, and those of the alternative look.
    pub open spec fn parts_made(self, rows: Seq<Seq<Color>>, bound: int, states: Seq<IconState>) -> bool {
        &&& states.len() == 4 * sound_below(bound)
        &&& forall|bits: u8, part: int|
            bits < bound && 0 <= part < 4 && Adjacency::of(bits).no_orphan() ==> self.part_made(
                rows,
                bits,
                part,
                #[trigger] states[4 * sound_below(bits as int) + part],
            )
    }

    /// `icon` is the icon that the sheet gives.
    pub open spec fn icon_made(self, rows: Seq<Seq<Color>>, icon: Icon) -> bool {
        &&& icon.width == self.output_icon_size.x
        &&& icon.height == self.output_icon_size.y
        &&& self.parts_made(rows, 256, icon.states@)
    }

    /// What the operation gives for an input: the icon of the sheet, or the
    /// first of the things that stand against it.
    pub open spec fn operation_done(
        self,
        input: InputIcon,
        done: Result<ProcessorPayload, ProcessorError>,
    ) -> bool {
        match input {
            InputIcon::Dmi(_) => done is Err && done->Err_0 is FormatError,
            InputIcon::DynamicImage(img) => {
                let rows = image_rows(img);
                match done {
                    Ok(payload) => self.slice(false).sheet_ok(rows) && self.slice(true).sheet_ok(
                        rows,
                    ) && canvas_fits(self.icon_size.x, self.icon_size.y) && payload is Single
                        && *payload->Single_0 is Dmi && self.icon_made(
                        rows,
                        (*payload->Single_0)->Dmi_0,
                    ),
                    Err(ProcessorError::OutputTooLarge { width, height }) => self.slice(
                        false,
                    ).sheet_ok(rows) && !canvas_fits(self.icon_size.x, self.icon_size.y) && width
                        == self.icon_size.x && height == self.icon_size.y,
                    Err(error) => self.slice(false).sheet_fault(rows, error) || (self.slice(
                        false,
                    ).sheet_ok(rows) && canvas_fits(self.icon_size.x, self.icon_size.y)
                        && self.slice(true).sheet_fault(rows, error)),
                }
            },
        }
    }

    /// How a look of the sheet is cut.
    pub fn slice_config(&self, alt: bool) -> (config: BitmaskSlice)
        ensures
            config == self.slice(alt),
    {
        let first: u32 = if alt {
            5
        } else {
            0
        };
        let mut positions = Positions::new();
        positions.insert(CornerType::Convex, first);
        positions.insert(CornerType::Concave, first + 1);
        positions.insert(CornerType::Horizontal, first + 2);
        positions.insert(CornerType::Vertical, first + 3);
        positions.insert(CornerType::Flat, first + 4);
        BitmaskSlice {
            output_name: None,
            produce_dirs: false,
            smooth_diagonally: true,
            icon_size: self.icon_size,
            output_icon_pos: self.output_icon_pos,
            output_icon_size: OutputIconSize { x: self.icon_size.x, y: self.icon_size.y },
            positions,
            cut_pos: CutPosition { x: self.icon_size.x / 2, y: self.icon_size.y / 2 },
            animation: None,
            prefabs: None,
            prefab_overlays: None,
            map_icon: None,
        }
    }

    /// The name of a part of a window.
    fn name_part(signature: u8, part: usize) -> (name: String)
        requires
            part < 4,
        ensures
            name@ == part_name(signature, part as int),
    {
        let mut name = if part >= 2 {
            "alt-".to_owned()
        } else {
            String::new()
        };
        name.append(decimal_text(signature as u64).as_str());
        if part % 2 == 0 {
            name.append("-upper");
        } else {
            name.append("-lower");
        }
        name
    }

    /// A part of the window of a signature.
    fn part_state(
        &self,
        signature: u8,
        part: usize,
        images: &Vec<DynamicImage>,
        delay: &Option<Vec<Delay>>,
    ) -> (state: IconState)
        requires
            part < 4,
            images.len() <= u32::MAX,
        ensures
            state.name@ == part_name(signature, part as int),
            state.dirs == 1,
            state.frames == images.len(),
            state.images.len() == images.len(),
            forall|frame: int|
                0 <= frame < state.images.len() ==> image_rows(#[trigger] state.images[frame])
                    == clamped(
                    image_rows(images[frame]),
                    0,
                    self.part_top(part as int),
                    self.output_icon_size.x as int,
                    self.output_icon_size.y as int,
                ),
            match (state.delay, delay) {
                (Some(copy), Some(given)) => copy@ == given@,
                (None, None) => true,
                _ => false,
            },
    {
        let top = if part % 2 == 0 {
            0
        } else {
            self.icon_size.y / 2
        };
        let mut frames: Vec<DynamicImage> = Vec::new();
        let mut index: usize = 0;
        while index < images.len()
            invariant
                index <= images.len(),
                top == self.part_top(part as int),
                frames.len() == index,
                forall|frame: int|
                    0 <= frame < index ==> image_rows(#[trigger] frames[frame]) == clamped(
                        image_rows(images[frame]),
                        0,
                        self.part_top(part as int),
                        self.output_icon_size.x as int,
                        self.output_icon_size.y as int,
                    ),
            decreases images.len() - index,
        {
            let crop = crop_clamped(
                &images[index],
                0,
                top,
                self.output_icon_size.x,
                self.output_icon_size.y,
            );
            let ghost before = frames@;
            frames.push(crop);
            proof {
                assert forall|frame: int| 0 <= frame < index + 1 implies image_rows(
                    #[trigger] frames[frame],
                ) == clamped(
                    image_rows(images[frame]),
                    0,
                    self.part_top(part as int),
                    self.output_icon_size.x as int,
                    self.output_icon_size.y as int,
                ) by {
                    if frame < index {
                        assert(frames[frame] == before[frame]);
                    }
                }
            }
            index += 1;
        }
        let delays = match delay {
            Some(delays) => Some(delays.clone()),
            None => None,
        };
        IconState {
            name: Self::name_part(signature, part),
            dirs: 1,
            frames: images.len() as u32,
            images: frames,
            delay: delays,
        }
    }
}

impl IconOperationConfig for BitmaskWindows {
    open spec fn outcome(
        &self,
        input: InputIcon,
        mode: OperationMode,
        sheet: Seq<Seq<Color>>,
        done: Result<ProcessorPayload, ProcessorError>,
    ) -> bool {
        self.operation_done(input, done)
    }

    open spec fn config_outcome(&self, fault: Option<ProcessorError>) -> bool {
        fault is None
    }

    /// Cuts both looks of the sheet and hands out the upper and the lower
    /// part of every window whose signature has no orphaned corner. The
    /// frames are handed out one for one: none is dropped for being the
    /// same as the one before it.
    fn perform_operation(&self, input: &InputIcon, mode: OperationMode, glyphs: &DynamicImage) -> (done:
        Result<ProcessorPayload, ProcessorError>)
        ensures
            self.operation_done(*input, done),
    {
        let img = match input {
            InputIcon::DynamicImage(img) => img,
            InputIcon::Dmi(_) => {
                return Err(
                    ProcessorError::FormatError("This operation only accepts raw images".to_owned()),
                );
            },
        };
        let ghost rows = image_rows(*img);
        let size = image_size(img);
        let bitmask_config = self.slice_config(false);
        let (corners, prefabs) = match bitmask_config.generate_corners(img) {
            Ok(cut) => cut,
            Err(error) => {
                return Err(error);
            },
        };
        if !fits_in_memory(self.icon_size.x, self.icon_size.y) {
            return Err(
                ProcessorError::OutputTooLarge {
                    width: self.icon_size.x,
                    height: self.icon_size.y,
                },
            );
        }
        let num_frames = size.1 / self.icon_size.y;
        let assembled = bitmask_config.assemble_tiles(img, &corners, &prefabs);
        let alt_config = self.slice_config(true);
        let (corners_alt, prefabs_alt) = match alt_config.generate_corners(img) {
            Ok(cut) => cut,
            Err(error) => {
                return Err(error);
            },
        };
        let assembled_alt = alt_config.assemble_tiles(img, &corners_alt, &prefabs_alt);
        let delay = match &self.animation {
            Some(animation) => Some(extend_delays(&animation.delays, num_frames as usize)),
            None => None,
        };
        let mut states: Vec<IconState> = Vec::new();
        let mut signature: usize = 0;
        while signature < 256
            invariant
                signature <= 256,
                rows == image_rows(*img),
                bitmask_config == self.slice(false),
                alt_config == self.slice(true),
                num_frames == self.slice(false).frame_count(rows),
                num_frames == self.slice(true).frame_count(rows),
                self.slice(false).tiles_of(rows, assembled@),
                self.slice(true).tiles_of(rows, assembled_alt@),
                match delay {
                    Some(delays) => self.delays(num_frames as int) == Some(delays@),
                    None => self.delays(num_frames as int) is None,
                },
                self.parts_made(rows, signature as int, states@),
            decreases 256 - signature,
        {
            let bits = signature as u8;
            let adjacency = Adjacency { bits };
            let ghost before = states@;
            if adjacency.ref_has_no_orphaned_corner() {
                states.push(self.part_state(bits, 0, &assembled[signature], &delay));
                states.push(self.part_state(bits, 1, &assembled[signature], &delay));
                states.push(self.part_state(bits, 2, &assembled_alt[signature], &delay));
                states.push(self.part_state(bits, 3, &assembled_alt[signature], &delay));
            }
            proof {
                let place = 4 * sound_below(signature as int);
                assert forall|other: u8, part: int|
                    other < signature + 1 && 0 <= part < 4 && Adjacency::of(
                        other,
                    ).no_orphan() implies self.part_made(
                    rows,
                    other,
                    part,
                    #[trigger] states@[4 * sound_below(other as int) + part],
                ) by {
                    if other < signature {
                        lemma_sound_grows(other as int, signature as int);
                        assert(states@[4 * sound_below(other as int) + part] == before[4
                            * sound_below(other as int) + part]);
                    } else {
                        assert(other == bits);
                    }
                }
            }
            signature += 1;
        }
        let icon = Icon {
            width: self.output_icon_size.x,
            height: self.output_icon_size.y,
            states,
        };
        Ok(ProcessorPayload::from_icon(icon))
    }

    fn verify_config(&self) -> (checked: Result<(), ProcessorError>)
        ensures
            checked is Ok,
    {
        Ok(())
    }
}

/// The count of the signatures without orphaned corner grows with the
/// bound, and by one at least past a signature without one.
pub proof fn lemma_sound_grows(lower: int, upper: int)
    requires
        0 <= lower < upper,
    ensures
        sound_below(lower) <= sound_below(upper),
        Adjacency::of(lower as u8).no_orphan() ==> sound_below(lower) < sound_below(upper),
        0 <= sound_below(lower),
    decreases upper - lower,
{
    lemma_sound_bounds(lower);
    if lower + 1 < upper {
        lemma_sound_grows(lower, upper - 1);
    } else {
        lemma_sound_bounds(upper);
    }
}

/// No more signatures are counted than there are.
pub proof fn lemma_sound_bounds(bound: int)
    requires
        0 <= bound,
    ensures
        0 <= sound_below(bound) <= bound,
    decreases bound,
{
    if bound > 0 {
        lemma_sound_bounds(bound - 1);
    }
}

} // verus!
