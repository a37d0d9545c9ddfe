use image::DynamicImage;
use vstd::prelude::*;

use crate::config::blocks::cutters::{Delay, SlicePoint};
use crate::generation::icon::{map_icon_fault, map_icon_fits, map_icon_rows};
use crate::generation::text::is_glyph_sheet;
use crate::operations::cutters::bitmask_slice::{
    canvas_fits, fits_in_memory, BitmaskSlice, SideSpacing, SIZE_OF_CARDINALS, SIZE_OF_DIAGONALS,
};
use crate::operations::error::ProcessorError;
use crate::operations::icon::{Icon, IconState};
use crate::operations::{IconOperationConfig, InputIcon, OperationMode, ProcessorPayload};
use crate::util::color::Color;
use crate::util::corners::{Corner, Side};
use crate::util::raster::{
    blank_image, clamped, clear, crop_clamped, filled, image_rows, image_size, overlaid,
    overlay_image,
};
use crate::operations::cutters::extend_delays;
use crate::util::text::{decimal, decimal_text, hyphenated};

verus! {

/// Cuts a sheet like `BitmaskSlice` and hands out, for every tile, the
/// part of it that is seen from each side, and the inner corners of the
/// tile that is surrounded on all four sides.
#[derive(Clone, PartialEq, Debug)]
pub struct BitmaskDirectionalVis {
    pub bitmask_slice_config: BitmaskSlice,
    pub slice_point: SlicePoint,
    pub mask_color: Option<String>,
}

/// A rectangle of a tile.
pub struct Rect {
    pub x: u32,
    pub y: u32,
    pub width: u32,
    pub height: u32,
}

/// The part of a tile within a rectangle, on a clear canvas of the given
/// size, where it was on the tile.
pub open spec fn masked(
    tile: Seq<Seq<Color>>,
    rect: Rect,
    width: int,
    height: int,
) -> Seq<Seq<Color>> {
    overlaid(
        filled(clear(), width, height),
        clamped(tile, rect.x as int, rect.y as int, rect.width as int, rect.height as int),
        rect.x as int,
        rect.y as int,
    )
}

impl BitmaskDirectionalVis {
    /// Every side has a cut, and the cuts of the south and of the east lie
    /// within the tile.
    pub open spec fn cuts_ok(self) -> bool {
        &&& self.slice_point.north is Some
        &&& self.slice_point.west is Some
        &&& self.slice_point.south is Some
        &&& self.slice_point.east is Some
        &&& self.slice_point.south->Some_0 <= self.bitmask_slice_config.icon_size.y
        &&& self.slice_point.east->Some_0 <= self.bitmask_slice_config.icon_size.x
    }

    /// The stretch of the tile that is seen from a side: north and west
    /// from the edge to their cut, south and east from their cut to the far
    /// edge.
    pub open spec fn side_cuts(self, side: Side) -> SideSpacing {
        match side {
            Side::North => SideSpacing { start: 0, end: self.slice_point.north->Some_0 },
            Side::South => SideSpacing {
                start: self.slice_point.south->Some_0,
                end: self.bitmask_slice_config.icon_size.y,
            },
            Side::East => SideSpacing {
                start: self.slice_point.east->Some_0,
                end: self.bitmask_slice_config.icon_size.x,
            },
            Side::West => SideSpacing { start: 0, end: self.slice_point.west->Some_0 },
        }
    }

    /// The part of the tile that is seen from a side: a band across the
    /// whole tile.
    pub open spec fn side_rect(self, side: Side) -> Rect {
        let cuts = self.side_cuts(side);
        if side == Side::North || side == Side::South {
            Rect {
                x: 0,
                y: cuts.start,
                width: self.bitmask_slice_config.icon_size.x,
                height: (cuts.end - cuts.start) as u32,
            }
        } else {
            Rect {
                x: cuts.start,
                y: 0,
                width: (cuts.end - cuts.start) as u32,
                height: self.bitmask_slice_config.icon_size.y,
            }
        }
    }

    /// The inner corner of a tile: as wide as the corner is cut from the
    /// sheet, and as high as the view from its northern or southern side.
    pub open spec fn corner_rect(self, corner: Corner) -> Rect {
        let across = self.bitmask_slice_config.side_info(corner.horizontal_side());
        let down = self.side_cuts(corner.vertical_side());
        Rect {
            x: across.start,
            y: down.start,
            width: (across.end - across.start) as u32,
            height: (down.end - down.start) as u32,
        }
    }

    /// The name of the view of a signature from a side.
    pub open spec fn side_name(bits: u8, side: Side) -> Seq<char> {
        decimal(bits as nat) + seq!['-'] + decimal(side.dir_bits() as nat)
    }

    /// The name of an inner corner.
    pub open spec fn corner_name(corner: Corner) -> Seq<char> {
        "innercorner"@ + seq!['-'] + decimal(
            (corner.horizontal_side().dir_bits() | corner.vertical_side().dir_bits()) as nat,
        )
    }

    /// `state` shows the part of the tile of a signature within a
    /// rectangle, frame by frame.
    pub open spec fn view_made(
        self,
        rows: Seq<Seq<Color>>,
        bits: u8,
        rect: Rect,
        name: Seq<char>,
        state: IconState,
    ) -> bool {
        let slice = self.bitmask_slice_config;
        &&& state.name@ == name
        &&& state.dirs == 1
        &&& state.frames == slice.frame_count(rows)
        &&& state.images.len() == slice.frame_count(rows)
        &&& forall|frame: int|
            0 <= frame < state.images.len() ==> image_rows(#[trigger] state.images[frame])
                == masked(
                slice.tile(rows, bits, frame),
                rect,
                slice.icon_size.x as int,
                slice.icon_size.y as int,
            )
        &&& match state.delay {
            Some(delays) => slice.delays(slice.frame_count(rows)) == Some(delays@),
            None => slice.delays(slice.frame_count(rows)) is None,
        }
    }

    /// `icon` is the icon that the sheet gives: for every signature in
    /// turn its views from the south, the north, the east and the west;
    /// then the four inner corners of the tile with all four cardinal
    /// neighbours; then the map icon where one is configured.
    pub open spec fn icon_made(self, rows: Seq<Seq<Color>>, sheet: Seq<Seq<Color>>, icon: Icon) -> bool {
        let slice = self.bitmask_slice_config;
        let sides = Side::engine_order();
        let views = 4 * slice.possible_states();
        &&& icon.width == slice.output_icon_size.x
        &&& icon.height == slice.output_icon_size.y
        &&& icon.states.len() == views + 4 + if slice.map_icon is Some {
            1int
        } else {
            0
        }
        &&& forall|at: int|
            0 <= at < views ==> self.view_made(
                rows,
                (at / 4) as u8,
                self.side_rect(sides[at % 4]),
                Self::side_name((at / 4) as u8, sides[at % 4]),
                #[trigger] icon.states[at],
            )
        &&& forall|at: int|
            views <= at < views + 4 ==> self.view_made(
                rows,
                15,
                self.corner_rect(Corner::all()[at - views]),
                Self::corner_name(Corner::all()[at - views]),
                #[trigger] icon.states[at],
            )
        &&& slice.map_icon is Some ==> {
            let state = icon.states[views + 4];
            &&& state.name@ == slice.map_icon->Some_0.icon_state_name@
            &&& state.dirs == 1
            &&& state.frames == 1
            &&& state.delay is None
            &&& state.images.len() == 1
            &&& image_rows(state.images[0]) == map_icon_rows(
                slice.output_icon_size.y as int,
                slice.output_icon_size.x as int,
                slice.map_icon->Some_0,
                sheet,
            )
        }
    }

    /// What the operation gives for an input: the icon of the sheet, or the
    /// first of the things that stand against it.
    pub open spec fn operation_done(
        self,
        input: InputIcon,
        mode: OperationMode,
        sheet: Seq<Seq<Color>>,
        done: Result<ProcessorPayload, ProcessorError>,
    ) -> bool {
        let slice = self.bitmask_slice_config;
        match input {
            InputIcon::Dmi(_) => done is Err && done->Err_0 is FormatError,
            InputIcon::DynamicImage(img) => {
                let rows = image_rows(img);
                let fits = canvas_fits(slice.output_icon_size.x, slice.output_icon_size.y)
                    && canvas_fits(slice.icon_size.x, slice.icon_size.y);
                let lettered = slice.map_icon is Some ==> is_glyph_sheet(sheet);
                match done {
                    Ok(payload) => {
                        &&& slice.sheet_ok(rows)
                        &&& self.cuts_ok()
                        &&& fits
                        &&& lettered
                        &&& slice.map_icon is Some ==> map_icon_fits(
                            slice.output_icon_size.y as int,
                            slice.output_icon_size.x as int,
                            slice.map_icon->Some_0,
                        )
                        &&& match mode {
                            OperationMode::Standard => payload is Single && *payload->Single_0 is Dmi
                                && self.icon_made(rows, sheet, (*payload->Single_0)->Dmi_0),
                            OperationMode::Debug => payload is MultipleNamed
                                && payload->MultipleNamed_0.len() == slice.debug_count(rows) + 1
                                && slice.debug_part(rows, payload->MultipleNamed_0@.drop_last())
                                && payload->MultipleNamed_0@.last().path_hint is None
                                && payload->MultipleNamed_0@.last().name_hint is None
                                && payload->MultipleNamed_0@.last().image is Dmi && self.icon_made(
                                rows,
                                sheet,
                                payload->MultipleNamed_0@.last().image->Dmi_0,
                            ),
                        }
                    },
                    Err(ProcessorError::ConfigError) => slice.sheet_ok(rows) && !self.cuts_ok(),
                    Err(ProcessorError::OutputTooLarge { width, height }) => slice.sheet_ok(rows)
                        && self.cuts_ok() && (if !fits {
                        (width == slice.output_icon_size.x && height == slice.output_icon_size.y) || (
                        width == slice.icon_size.x && height == slice.icon_size.y)
                    } else {
                        &&& lettered
                        &&& slice.map_icon is Some ==> map_icon_fits(
                            slice.output_icon_size.y as int,
                            slice.output_icon_size.x as int,
                            slice.map_icon->Some_0,
                        )
                        &&& mode is Debug
                        &&& slice.frame_count(rows) > 0
                        &&& !slice.debug_canvas_fits()
                        &&& height == slice.icon_size.y
                    }),
                    Err(ProcessorError::FormatError(_)) => slice.sheet_ok(rows) && self.cuts_ok()
                        && fits && !lettered,
                    Err(ProcessorError::GenerationError(error)) => slice.sheet_ok(rows)
                        && self.cuts_ok() && fits && lettered && slice.map_icon is Some
                        && map_icon_fault(
                        slice.output_icon_size.y as int,
                        slice.output_icon_size.x as int,
                        slice.map_icon->Some_0,
                        error,
                    ),
                    Err(error) => slice.sheet_fault(rows, error),
                }
            },
        }
    }

    /// Whether every side has a cut that lies within the tile.
    pub fn check_cuts(&self) -> (sound: bool)
        ensures
            sound == self.cuts_ok(),
    {
        match (
            self.slice_point.get(Side::North),
            self.slice_point.get(Side::South),
            self.slice_point.get(Side::East),
            self.slice_point.get(Side::West),
        ) {
            (Some(_), Some(south), Some(east), Some(_)) => south
                <= self.bitmask_slice_config.icon_size.y && east
                <= self.bitmask_slice_config.icon_size.x,
            _ => false,
        }
    }

    /// The stretch of the tile that is seen from a side.
    #[must_use]
    pub fn get_side_cuts(&self, side: Side) -> (cuts: SideSpacing)
        requires
            self.slice_point.cut(side) is Some,
        ensures
            cuts == self.side_cuts(side),
    {
        match side {
            Side::North => SideSpacing { start: 0, end: self.slice_point.get(Side::North).unwrap() },
            Side::South => SideSpacing {
                start: self.slice_point.get(Side::South).unwrap(),
                end: self.bitmask_slice_config.icon_size.y,
            },
            Side::East => SideSpacing {
                start: self.slice_point.get(Side::East).unwrap(),
                end: self.bitmask_slice_config.icon_size.x,
            },
            Side::West => SideSpacing { start: 0, end: self.slice_point.get(Side::West).unwrap() },
        }
    }

    /// The part of every frame within a rectangle, each on a clear canvas
    /// of the size of a tile.
    fn masked_frames(&self, images: &Vec<DynamicImage>, rect: &Rect) -> (frames: Vec<DynamicImage>)
        requires
            canvas_fits(
                self.bitmask_slice_config.icon_size.x,
                self.bitmask_slice_config.icon_size.y,
            ),
        ensures
            frames.len() == images.len(),
            forall|frame: int|
                0 <= frame < frames.len() ==> image_rows(#[trigger] frames[frame]) == masked(
                    image_rows(images[frame]),
                    *rect,
                    self.bitmask_slice_config.icon_size.x as int,
                    self.bitmask_slice_config.icon_size.y as int,
                ),
    {
        let mut frames: Vec<DynamicImage> = Vec::new();
        let mut index: usize = 0;
        while index < images.len()
            invariant
                index <= images.len(),
                canvas_fits(
                    self.bitmask_slice_config.icon_size.x,
                    self.bitmask_slice_config.icon_size.y,
                ),
                frames.len() == index,
                forall|frame: int|
                    0 <= frame < index ==> image_rows(#[trigger] frames[frame]) == masked(
                        image_rows(images[frame]),
                        *rect,
                        self.bitmask_slice_config.icon_size.x as int,
                        self.bitmask_slice_config.icon_size.y as int,
                    ),
            decreases images.len() - index,
        {
            let mut cut_img = blank_image(
                self.bitmask_slice_config.icon_size.x,
                self.bitmask_slice_config.icon_size.y,
            );
            let crop = crop_clamped(&images[index], rect.x, rect.y, rect.width, rect.height);
            overlay_image(&mut cut_img, &crop, rect.x, rect.y);
            let ghost before = frames@;
            frames.push(cut_img);
            proof {
                assert forall|frame: int| 0 <= frame < index + 1 implies image_rows(
                    #[trigger] frames[frame],
                ) == masked(
                    image_rows(images[frame]),
                    *rect,
                    self.bitmask_slice_config.icon_size.x as int,
                    self.bitmask_slice_config.icon_size.y as int,
                ) by {
                    if frame < index {
                        assert(frames[frame] == before[frame]);
                    }
                }
            }
            index += 1;
        }
        frames
    }

    /// The state that shows the part of a tile within a rectangle.
    fn view_state(
        &self,
        name: String,
        images: &Vec<DynamicImage>,
        rect: &Rect,
        delay: &Option<Vec<Delay>>,
    ) -> (state: IconState)
        requires
            canvas_fits(
                self.bitmask_slice_config.icon_size.x,
                self.bitmask_slice_config.icon_size.y,
            ),
            images.len() <= u32::MAX,
        ensures
            state.name == name,
            state.dirs == 1,
            state.frames == images.len(),
            state.images.len() == images.len(),
            forall|frame: int|
                0 <= frame < state.images.len() ==> image_rows(#[trigger] state.images[frame])
                    == masked(
                    image_rows(images[frame]),
                    *rect,
                    self.bitmask_slice_config.icon_size.x as int,
                    self.bitmask_slice_config.icon_size.y as int,
                ),
            match (state.delay, delay) {
                (Some(copy), Some(given)) => copy@ == given@,
                (None, None) => true,
                _ => false,
            },
    {
        let frames = self.masked_frames(images, rect);
        let delays = match delay {
            Some(delays) => Some(delays.clone()),
            None => None,
        };
        IconState { name, dirs: 1, frames: images.len() as u32, images: frames, delay: delays }
    }
}

impl IconOperationConfig for BitmaskDirectionalVis {
    open spec fn outcome(
        &self,
        input: InputIcon,
        mode: OperationMode,
        sheet: Seq<Seq<Color>>,
        done: Result<ProcessorPayload, ProcessorError>,
    ) -> bool {
        self.operation_done(input, mode, sheet, done)
    }

    open spec fn config_outcome(&self, fault: Option<ProcessorError>) -> bool {
        fault is None
    }

    /// Cuts the sheet, puts the tiles together, and hands out the views of
    /// every tile and the inner corners as an icon.
    fn perform_operation(&self, input: &InputIcon, mode: OperationMode, glyphs: &DynamicImage) -> (done:
        Result<ProcessorPayload, ProcessorError>)
        ensures
            self.operation_done(*input, mode, image_rows(*glyphs), done),
    {
        let slice = &self.bitmask_slice_config;
        let img = match input {
            InputIcon::DynamicImage(img) => img,
            InputIcon::Dmi(_) => {
                return Err(
                    ProcessorError::FormatError("This operation only accepts raw images".to_owned()),
                );
            },
        };
        let ghost rows = image_rows(*img);
        let (corners, prefabs) = match slice.generate_corners(img) {
            Ok(cut) => cut,
            Err(error) => {
                return Err(error);
            },
        };
        if !self.check_cuts() {
            return Err(ProcessorError::ConfigError);
        }
        if !fits_in_memory(slice.output_icon_size.x, slice.output_icon_size.y) {
            return Err(
                ProcessorError::OutputTooLarge {
                    width: slice.output_icon_size.x,
                    height: slice.output_icon_size.y,
                },
            );
        }
        if !fits_in_memory(slice.icon_size.x, slice.icon_size.y) {
            return Err(
                ProcessorError::OutputTooLarge {
                    width: slice.icon_size.x,
                    height: slice.icon_size.y,
                },
            );
        }
        let size = image_size(img);
        let num_frames = size.1 / slice.icon_size.y;
        let possible_states = if slice.smooth_diagonally {
            SIZE_OF_DIAGONALS
        } else {
            SIZE_OF_CARDINALS
        };
        let assembled = slice.assemble_tiles(img, &corners, &prefabs);
        let delay = match &slice.animation {
            Some(animation) => Some(extend_delays(&animation.delays, num_frames as usize)),
            None => None,
        };
        let sides = Side::dmi_cardinals();
        let mut icon_states: Vec<IconState> = Vec::new();
        let mut signature: usize = 0;
        while signature < possible_states
            invariant
                signature <= possible_states,
                possible_states == slice.possible_states(),
                *slice == self.bitmask_slice_config,
                rows == image_rows(*img),
                slice.sheet_ok(rows),
                self.cuts_ok(),
                canvas_fits(slice.icon_size.x, slice.icon_size.y),
                num_frames == slice.frame_count(rows),
                slice.tiles_of(rows, assembled@),
                sides@ == Side::engine_order(),
                match delay {
                    Some(delays) => slice.delays(num_frames as int) == Some(delays@),
                    None => slice.delays(num_frames as int) is None,
                },
                icon_states.len() == 4 * signature,
                forall|at: int|
                    0 <= at < icon_states.len() ==> self.view_made(
                        rows,
                        (at / 4) as u8,
                        self.side_rect(Side::engine_order()[at % 4]),
                        Self::side_name((at / 4) as u8, Side::engine_order()[at % 4]),
                        #[trigger] icon_states[at],
                    ),
            decreases possible_states - signature,
        {
            let mut facing: usize = 0;
            while facing < 4
                invariant
                    facing <= 4,
                    signature < possible_states,
                    possible_states == slice.possible_states(),
                    *slice == self.bitmask_slice_config,
                    rows == image_rows(*img),
                    slice.sheet_ok(rows),
                    self.cuts_ok(),
                    canvas_fits(slice.icon_size.x, slice.icon_size.y),
                    num_frames == slice.frame_count(rows),
                    slice.tiles_of(rows, assembled@),
                    sides@ == Side::engine_order(),
                    match delay {
                        Some(delays) => slice.delays(num_frames as int) == Some(delays@),
                        None => slice.delays(num_frames as int) is None,
                    },
                    icon_states.len() == 4 * signature + facing,
                    forall|at: int|
                        0 <= at < icon_states.len() ==> self.view_made(
                            rows,
                            (at / 4) as u8,
                            self.side_rect(Side::engine_order()[at % 4]),
                            Self::side_name((at / 4) as u8, Side::engine_order()[at % 4]),
                            #[trigger] icon_states[at],
                        ),
                decreases 4 - facing,
            {
                let side = sides[facing];
                let slice_info = self.get_side_cuts(side);
                let rect = if side.is_vertical() {
                    Rect {
                        x: 0,
                        y: slice_info.start,
                        width: slice.icon_size.x,
                        height: slice_info.step(),
                    }
                } else {
                    Rect {
                        x: slice_info.start,
                        y: 0,
                        width: slice_info.step(),
                        height: slice.icon_size.y,
                    }
                };
                let name = hyphenated(
                    decimal_text(signature as u64).as_str(),
                    decimal_text(side.byond_dir() as u64).as_str(),
                );
                let state = self.view_state(name, &assembled[signature], &rect, &delay);
                let ghost before = icon_states@;
                icon_states.push(state);
                proof {
                    let place = 4 * signature + facing;
                    assert(place / 4 == signature && place % 4 == facing);
                    assert forall|at: int| 0 <= at < icon_states.len() implies self.view_made(
                        rows,
                        (at / 4) as u8,
                        self.side_rect(Side::engine_order()[at % 4]),
                        Self::side_name((at / 4) as u8, Side::engine_order()[at % 4]),
                        #[trigger] icon_states[at],
                    ) by {
                        if at < place {
                            assert(icon_states[at] == before[at]);
                        }
                    }
                }
                facing += 1;
            }
            signature += 1;
        }
        let ghost views = icon_states@;
        let all = Corner::every();
        let mut index: usize = 0;
        while index < 4
            invariant
                index <= 4,
                possible_states == slice.possible_states(),
                *slice == self.bitmask_slice_config,
                rows == image_rows(*img),
                slice.sheet_ok(rows),
                self.cuts_ok(),
                canvas_fits(slice.icon_size.x, slice.icon_size.y),
                num_frames == slice.frame_count(rows),
                slice.tiles_of(rows, assembled@),
                all@ == Corner::all(),
                match delay {
                    Some(delays) => slice.delays(num_frames as int) == Some(delays@),
                    None => slice.delays(num_frames as int) is None,
                },
                views.len() == 4 * possible_states,
                icon_states.len() == views.len() + index,
                forall|at: int| 0 <= at < views.len() ==> #[trigger] icon_states[at] == views[at],
                forall|at: int|
                    views.len() <= at < icon_states.len() ==> self.view_made(
                        rows,
                        15,
                        self.corner_rect(Corner::all()[at - views.len()]),
                        Self::corner_name(Corner::all()[at - views.len()]),
                        #[trigger] icon_states[at],
                    ),
            decreases 4 - index,
        {
            let corner = all[index];
            let (horizontal, vertical) = corner.sides_of_corner();
            let horizontal_side_info = slice.get_side_info(horizontal);
            let down = self.get_side_cuts(vertical);
            let rect = Rect {
                x: horizontal_side_info.start,
                y: down.start,
                width: horizontal_side_info.step(),
                height: down.step(),
            };
            let name = hyphenated("innercorner", decimal_text(corner.byond_dir() as u64).as_str());
            let state = self.view_state(name, &assembled[15], &rect, &delay);
            let ghost before = icon_states@;
            icon_states.push(state);
            proof {
                assert forall|at: int| 0 <= at < views.len() implies #[trigger] icon_states[at]
                    == views[at] by {
                    assert(icon_states[at] == before[at]);
                }
                assert forall|at: int| views.len() <= at < icon_states.len() implies self.view_made(
                    rows,
                    15,
                    self.corner_rect(Corner::all()[at - views.len()]),
                    Self::corner_name(Corner::all()[at - views.len()]),
                    #[trigger] icon_states[at],
                ) by {
                    if at < views.len() + index {
                        assert(icon_states[at] == before[at]);
                    }
                }
            }
            index += 1;
        }
        let ghost listed = icon_states@;
        match slice.map_icon_state(glyphs) {
            Ok(Some(state)) => {
                icon_states.push(state);
            },
            Ok(None) => {},
            Err(error) => {
                return Err(error);
            },
        }
        proof {
            assert forall|at: int| 0 <= at < listed.len() implies #[trigger] icon_states[at]
                == listed[at] by {}
        }
        let out_icon = Icon {
            width: slice.output_icon_size.x,
            height: slice.output_icon_size.y,
            states: icon_states,
        };
        slice.wrap_up(img, &corners, out_icon, mode)
    }

    fn verify_config(&self) -> (checked: Result<(), ProcessorError>)
        ensures
            checked is Ok,
    {
        Ok(())
    }
}

} // verus!
