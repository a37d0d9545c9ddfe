use image::DynamicImage;
use vstd::prelude::*;

use vstd::arithmetic::div_mod::{
    lemma_div_pos_is_pos, lemma_mod_pos_bound, lemma_multiply_divide_lt,
};

use crate::config::blocks::cutters::{
    Animation, CutPosition, Delay, IconSize, OutputIconPosition, OutputIconSize, Positions,
    PrefabOverlays, Prefabs,
};
use crate::config::blocks::generators::MapIcon;
use crate::generation::icon::{generate_map_icon, map_icon_fault, map_icon_fits, map_icon_rows};
use crate::generation::text::is_glyph_sheet;
use crate::operations::error::{CropFault, ProcessorError};
use crate::operations::icon::{Icon, IconState};
use crate::operations::{
    IconOperationConfig, InputIcon, NamedIcon, OperationMode, OutputImage, ProcessorPayload,
};
use crate::util::adjacency::{turn_keeps_cardinals, Adjacency};
use crate::util::color::Color;
use crate::util::corners::{Corner, CornerType, Side};
use crate::util::raster::{
    blank_image, clear, copy_image, crop_image, cropped, filled, has_size, holds_rect,
    image_is_rgba8, image_rows, image_size, overlaid, overlay_image, replace_image, replaced,
};
use crate::util::text::{decimal, decimal_text, hyphenated};
use crate::operations::cutters::{extend_delays, extended};

verus! {

/// The stretch of a tile along one axis that belongs to a side.
#[derive(Copy, Clone, PartialEq, Eq, Structural, Debug)]
pub struct SideSpacing {
    pub start: u32,
    pub end: u32,
}

impl SideSpacing {
    /// The length of the stretch.
    #[must_use]
    pub fn step(self) -> (length: u32)
        requires
            self.start <= self.end,
        ensures
            length == self.end - self.start,
    {
        self.end - self.start
    }
}

/// The number of signatures over the four cardinal directions.
pub const SIZE_OF_CARDINALS: usize = 16;

/// The number of signatures over all eight directions.
pub const SIZE_OF_DIAGONALS: usize = 256;

/// How a sheet of reference corners is cut and put together again.
#[derive(Clone, PartialEq, Debug)]
pub struct BitmaskSlice {
    pub output_name: Option<String>,
    pub produce_dirs: bool,
    pub smooth_diagonally: bool,
    pub icon_size: IconSize,
    pub output_icon_pos: OutputIconPosition,
    pub output_icon_size: OutputIconSize,
    pub positions: Positions,
    pub cut_pos: CutPosition,
    pub animation: Option<Animation>,
    pub prefabs: Option<Prefabs>,
    pub prefab_overlays: Option<PrefabOverlays>,
    pub map_icon: Option<MapIcon>,
}

/// The frames of one corner type, corner by corner.
#[derive(Clone, Debug)]
pub struct CornerFrames {
    pub north_east: Vec<DynamicImage>,
    pub south_east: Vec<DynamicImage>,
    pub south_west: Vec<DynamicImage>,
    pub north_west: Vec<DynamicImage>,
}

impl CornerFrames {
    /// The frames of a corner.
    pub open spec fn frames(self, corner: Corner) -> Seq<DynamicImage> {
        match corner {
            Corner::NorthEast => self.north_east@,
            Corner::SouthEast => self.south_east@,
            Corner::SouthWest => self.south_west@,
            Corner::NorthWest => self.north_west@,
        }
    }

    #[must_use]
    pub fn get(&self, corner: Corner) -> (frames: &Vec<DynamicImage>)
        ensures
            frames@ == self.frames(corner),
    {
        match corner {
            Corner::NorthEast => &self.north_east,
            Corner::SouthEast => &self.south_east,
            Corner::SouthWest => &self.south_west,
            Corner::NorthWest => &self.north_west,
        }
    }
}

/// The crops of the source sheet, by corner type and corner.
#[derive(Clone, Debug)]
pub struct CornerPayload {
    pub convex: Option<CornerFrames>,
    pub concave: Option<CornerFrames>,
    pub horizontal: Option<CornerFrames>,
    pub vertical: Option<CornerFrames>,
    pub flat: Option<CornerFrames>,
}

impl CornerPayload {
    /// The crops of a corner type, where it was cut.
    pub open spec fn set(self, corner_type: CornerType) -> Option<CornerFrames> {
        match corner_type {
            CornerType::Convex => self.convex,
            CornerType::Concave => self.concave,
            CornerType::Horizontal => self.horizontal,
            CornerType::Vertical => self.vertical,
            CornerType::Flat => self.flat,
        }
    }

    /// How many corner types were cut.
    pub open spec fn count(self) -> int {
        (if self.convex is Some {
            1int
        } else {
            0
        }) + (if self.concave is Some {
            1int
        } else {
            0
        }) + (if self.horizontal is Some {
            1int
        } else {
            0
        }) + (if self.vertical is Some {
            1int
        } else {
            0
        }) + (if self.flat is Some {
            1int
        } else {
            0
        })
    }

    /// No corner type is cut.
    #[must_use]
    pub fn new() -> (payload: CornerPayload)
        ensures
            forall|corner_type: CornerType| payload.set(corner_type) is None,
    {
        CornerPayload { convex: None, concave: None, horizontal: None, vertical: None, flat: None }
    }

    #[must_use]
    pub fn get(&self, corner_type: CornerType) -> (frames: Option<&CornerFrames>)
        ensures
            match frames {
                Some(found) => self.set(corner_type) == Some(*found),
                None => self.set(corner_type) is None,
            },
    {
        match corner_type {
            CornerType::Convex => self.convex.as_ref(),
            CornerType::Concave => self.concave.as_ref(),
            CornerType::Horizontal => self.horizontal.as_ref(),
            CornerType::Vertical => self.vertical.as_ref(),
            CornerType::Flat => self.flat.as_ref(),
        }
    }

    /// Sets the crops of a corner type.
    pub fn insert(&mut self, corner_type: CornerType, frames: CornerFrames)
        ensures
            final(self).set(corner_type) == Some(frames),
            forall|other: CornerType|
                other != corner_type ==> final(self).set(other) == old(self).set(other),
    {
        match corner_type {
            CornerType::Convex => {
                self.convex = Some(frames);
            },
            CornerType::Concave => {
                self.concave = Some(frames);
            },
            CornerType::Horizontal => {
                self.horizontal = Some(frames);
            },
            CornerType::Vertical => {
                self.vertical = Some(frames);
            },
            CornerType::Flat => {
                self.flat = Some(frames);
            },
        }
    }

    /// How many corner types were cut.
    #[must_use]
    pub fn len(&self) -> (count: usize)
        ensures
            count == self.count(),
    {
        let mut count: usize = 0;
        if self.convex.is_some() {
            count += 1;
        }
        if self.concave.is_some() {
            count += 1;
        }
        if self.horizontal.is_some() {
            count += 1;
        }
        if self.vertical.is_some() {
            count += 1;
        }
        if self.flat.is_some() {
            count += 1;
        }
        count
    }
}

/// The literal tiles that were cut, by the bits of their signature: one
/// slot for each of the 256 signatures.
#[derive(Clone, Debug)]
pub struct PrefabPayload {
    pub slots: Vec<Option<Vec<DynamicImage>>>,
}

impl PrefabPayload {
    /// There is a slot for every signature.
    pub open spec fn wf(self) -> bool {
        self.slots.len() == 256
    }

    /// The frames of the literal tile of a signature, where one was cut.
    pub open spec fn frames_of(self, bits: u8) -> Option<Vec<DynamicImage>> {
        self.slots[bits as int]
    }

    /// No literal tile.
    #[must_use]
    pub fn new() -> (payload: PrefabPayload)
        ensures
            payload.wf(),
            forall|bits: u8| payload.frames_of(bits) is None,
    {
        let mut slots: Vec<Option<Vec<DynamicImage>>> = Vec::new();
        let mut index: usize = 0;
        while index < 256
            invariant
                index <= 256,
                slots.len() == index,
                forall|i: int| 0 <= i < index ==> (#[trigger] slots[i]) is None,
            decreases 256 - index,
        {
            slots.push(None);
            index += 1;
        }
        PrefabPayload { slots }
    }

    #[must_use]
    pub fn get(&self, bits: u8) -> (frames: Option<&Vec<DynamicImage>>)
        requires
            self.wf(),
        ensures
            match frames {
                Some(found) => self.frames_of(bits) == Some(*found),
                None => self.frames_of(bits) is None,
            },
    {
        self.slots[bits as usize].as_ref()
    }

    #[must_use]
    pub fn contains_key(&self, bits: u8) -> (held: bool)
        requires
            self.wf(),
        ensures
            held == self.frames_of(bits) is Some,
    {
        self.slots[bits as usize].is_some()
    }

    /// Sets the frames of the literal tile of a signature.
    pub fn insert(&mut self, bits: u8, frames: Vec<DynamicImage>)
        requires
            old(self).wf(),
        ensures
            final(self).wf(),
            final(self).frames_of(bits) == Some(frames),
            forall|other: u8| other != bits ==> final(self).frames_of(other) == old(self).frames_of(other),
    {
        self.slots.set(bits as usize, Some(frames));
    }
}

/// The column of the literal tile of a signature, where one is configured.
pub open spec fn prefab_column(prefabs: Option<Prefabs>, bits: u8) -> Option<u32> {
    match prefabs {
        Some(table) => if table.0@.contains_key(bits) {
            Some(table.0@[bits])
        } else {
            None
        },
        None => None,
    }
}

impl BitmaskSlice {
    /// The stretch of the tile that belongs to a side: west and north run
    /// from the edge to the cut, east and south from the cut to the far
    /// edge.
    pub open spec fn side_info(self, side: Side) -> SideSpacing {
        match side {
            Side::North => SideSpacing { start: 0, end: self.cut_pos.y },
            Side::South => SideSpacing { start: self.cut_pos.y, end: self.icon_size.y },
            Side::East => SideSpacing { start: self.cut_pos.x, end: self.icon_size.x },
            Side::West => SideSpacing { start: 0, end: self.cut_pos.x },
        }
    }

    /// Both cuts lie within the tile.
    pub open spec fn cut_within_icon(self) -> bool {
        self.cut_pos.x <= self.icon_size.x && self.cut_pos.y <= self.icon_size.y
    }

    /// Whether the corner type is cut: all are where diagonals are smoothed,
    /// all but `Flat` where they are not.
    pub open spec fn uses(self, corner_type: CornerType) -> bool {
        self.smooth_diagonally || corner_type != CornerType::Flat
    }

    /// The sheet holds whole frames.
    pub open spec fn frames_divide(self, rows: Seq<Seq<Color>>) -> bool {
        self.icon_size.y > 0 && (rows.len() as int) % (self.icon_size.y as int) == 0
    }

    /// The number of frames of the sheet.
    pub open spec fn frame_count(self, rows: Seq<Seq<Color>>) -> int {
        (rows.len() as int) / (self.icon_size.y as int)
    }

    pub open spec fn corner_left(self, position: u32, corner: Corner) -> int {
        position * self.icon_size.x + self.side_info(corner.horizontal_side()).start
    }

    pub open spec fn corner_top(self, corner: Corner, frame: int) -> int {
        frame * self.icon_size.y + self.side_info(corner.vertical_side()).start
    }

    pub open spec fn corner_width(self, corner: Corner) -> int {
        self.side_info(corner.horizontal_side()).end - self.side_info(
            corner.horizontal_side(),
        ).start
    }

    pub open spec fn corner_height(self, corner: Corner) -> int {
        self.side_info(corner.vertical_side()).end - self.side_info(corner.vertical_side()).start
    }

    /// The crop of a corner in the column `position` and in a frame lies
    /// within the sheet.
    pub open spec fn corner_fits(
        self,
        rows: Seq<Seq<Color>>,
        position: u32,
        corner: Corner,
        frame: int,
    ) -> bool {
        holds_rect(
            rows,
            self.corner_left(position, corner),
            self.corner_top(corner, frame),
            self.corner_width(corner),
            self.corner_height(corner),
        )
    }

    /// The pixels of a corner in the column `position` and in a frame.
    pub open spec fn corner_crop(
        self,
        rows: Seq<Seq<Color>>,
        position: u32,
        corner: Corner,
        frame: int,
    ) -> Seq<Seq<Color>> {
        cropped(
            rows,
            self.corner_left(position, corner),
            self.corner_top(corner, frame),
            self.corner_width(corner),
            self.corner_height(corner),
        )
    }

    /// `frames` are the crops of a corner, frame by frame.
    pub open spec fn cut_for(
        self,
        rows: Seq<Seq<Color>>,
        position: u32,
        corner: Corner,
        count: int,
        frames: Seq<DynamicImage>,
    ) -> bool {
        &&& frames.len() == count
        &&& forall|frame: int|
            0 <= frame < count ==> #[trigger] self.corner_fits(rows, position, corner, frame)
        &&& forall|frame: int|
            0 <= frame < count ==> image_rows(#[trigger] frames[frame]) == self.corner_crop(
                rows,
                position,
                corner,
                frame,
            )
    }

    /// `set` holds the crops of all four corners of a column.
    pub open spec fn cut_column(
        self,
        rows: Seq<Seq<Color>>,
        position: u32,
        count: int,
        set: CornerFrames,
    ) -> bool {
        forall|corner: Corner| #[trigger]
            self.cut_for(rows, position, corner, count, set.frames(corner))
    }

    /// Every crop of a column fits that comes before the given corner and
    /// frame, corner by corner and frame by frame.
    pub open spec fn fits_before(
        self,
        rows: Seq<Seq<Color>>,
        position: u32,
        corner: Corner,
        frame: int,
        count: int,
    ) -> bool {
        forall|earlier: Corner, at: int|
            0 <= at < count && (earlier.ordinal() < corner.ordinal() || (earlier == corner && at
                < frame)) ==> #[trigger] self.corner_fits(rows, position, earlier, at)
    }

    /// What is reported of a corner crop that does not fit.
    pub open spec fn corner_fault(
        self,
        corner_type: Option<CornerType>,
        position: u32,
        corner: Corner,
        frame: u32,
    ) -> CropFault {
        CropFault {
            corner_type,
            corner: Some(corner),
            prefab: None,
            column: position,
            frame,
            x: self.corner_left(position, corner) as u64,
            y: self.corner_top(corner, frame as int) as u64,
            width: self.corner_width(corner) as u32,
            height: self.corner_height(corner) as u32,
        }
    }

    /// The crop of a literal tile in a column and a frame lies within the
    /// sheet.
    pub open spec fn prefab_fits(self, rows: Seq<Seq<Color>>, column: u32, frame: int) -> bool {
        holds_rect(
            rows,
            column * self.icon_size.x,
            frame * self.icon_size.y,
            self.icon_size.x as int,
            self.icon_size.y as int,
        )
    }

    /// The pixels of a literal tile in a column and a frame.
    pub open spec fn prefab_crop(self, rows: Seq<Seq<Color>>, column: u32, frame: int) -> Seq<
        Seq<Color>,
    > {
        cropped(
            rows,
            column * self.icon_size.x,
            frame * self.icon_size.y,
            self.icon_size.x as int,
            self.icon_size.y as int,
        )
    }

    /// `frames` are the crops of a literal tile, frame by frame.
    pub open spec fn prefab_cut(
        self,
        rows: Seq<Seq<Color>>,
        column: u32,
        count: int,
        frames: Seq<DynamicImage>,
    ) -> bool {
        &&& frames.len() == count
        &&& forall|frame: int|
            0 <= frame < count ==> #[trigger] self.prefab_fits(rows, column, frame)
        &&& forall|frame: int|
            0 <= frame < count ==> image_rows(#[trigger] frames[frame]) == self.prefab_crop(
                rows,
                column,
                frame,
            )
    }

    /// What is reported of the crop of a literal tile that does not fit.
    pub open spec fn prefab_fault(self, bits: u8, column: u32, frame: u32) -> CropFault {
        CropFault {
            corner_type: None,
            corner: None,
            prefab: Some(bits),
            column,
            frame,
            x: (column * self.icon_size.x) as u64,
            y: (frame * self.icon_size.y) as u64,
            width: self.icon_size.x,
            height: self.icon_size.y,
        }
    }

    /// Every corner type that is used and stands before the `bound`-th has
    /// a column, and every crop of that column fits.
    pub open spec fn types_fit_before(self, rows: Seq<Seq<Color>>, bound: int) -> bool {
        forall|corner_type: CornerType|
            self.uses(corner_type) && corner_type.ordinal() < bound ==> (
            #[trigger] self.positions.column(corner_type)) is Some && forall|
                corner: Corner,
                frame: int,
            |
                0 <= frame < self.frame_count(rows) ==> #[trigger] self.corner_fits(
                    rows,
                    self.positions.column(corner_type)->Some_0,
                    corner,
                    frame,
                )
    }

    /// Every literal tile of a signature below `bound` fits in every frame.
    pub open spec fn prefabs_fit_before(self, rows: Seq<Seq<Color>>, bound: int) -> bool {
        forall|bits: u8, frame: int|
            bits < bound && 0 <= frame < self.frame_count(rows) && prefab_column(
                self.prefabs,
                bits,
            ) is Some ==> #[trigger] self.prefab_fits(
                rows,
                prefab_column(self.prefabs, bits)->Some_0,
                frame,
            )
    }

    /// `corners` holds the crops of every corner type that is used, and of
    /// no other.
    pub open spec fn corners_cut(self, rows: Seq<Seq<Color>>, corners: CornerPayload) -> bool {
        forall|corner_type: CornerType|
            if self.uses(corner_type) {
                &&& self.positions.column(corner_type) is Some
                &&& (#[trigger] corners.set(corner_type)) is Some
                &&& self.cut_column(
                    rows,
                    self.positions.column(corner_type)->Some_0,
                    self.frame_count(rows),
                    corners.set(corner_type)->Some_0,
                )
            } else {
                (#[trigger] corners.set(corner_type)) is None
            }
    }

    /// `prefabs` holds the crops of every literal tile that is configured,
    /// and of no other.
    pub open spec fn prefabs_cut(self, rows: Seq<Seq<Color>>, prefabs: PrefabPayload) -> bool {
        &&& prefabs.wf()
        &&& forall|bits: u8|
            if prefab_column(self.prefabs, bits) is Some {
                &&& (#[trigger] prefabs.frames_of(bits)) is Some
                &&& self.prefab_cut(
                    rows,
                    prefab_column(self.prefabs, bits)->Some_0,
                    self.frame_count(rows),
                    prefabs.frames_of(bits)->Some_0@,
                )
            } else {
                (#[trigger] prefabs.frames_of(bits)) is None
            }
    }

    /// `fault` names the first crop that does not fit into the sheet: the
    /// corner types are cut in their order, each corner by corner and frame
    /// by frame, and after them the literal tiles by their signature.
    pub open spec fn first_misfit(self, rows: Seq<Seq<Color>>, fault: CropFault) -> bool {
        if fault.prefab is None {
            &&& fault.corner_type is Some
            &&& fault.corner is Some
            &&& self.uses(fault.corner_type->Some_0)
            &&& self.positions.column(fault.corner_type->Some_0) == Some(fault.column)
            &&& fault.frame < self.frame_count(rows)
            &&& fault == self.corner_fault(
                fault.corner_type,
                fault.column,
                fault.corner->Some_0,
                fault.frame,
            )
            &&& !self.corner_fits(rows, fault.column, fault.corner->Some_0, fault.frame as int)
            &&& self.fits_before(
                rows,
                fault.column,
                fault.corner->Some_0,
                fault.frame as int,
                self.frame_count(rows),
            )
            &&& self.types_fit_before(rows, fault.corner_type->Some_0.ordinal())
        } else {
            &&& self.types_fit_before(rows, 5)
            &&& prefab_column(self.prefabs, fault.prefab->Some_0) == Some(fault.column)
            &&& fault.frame < self.frame_count(rows)
            &&& fault == self.prefab_fault(fault.prefab->Some_0, fault.column, fault.frame)
            &&& !self.prefab_fits(rows, fault.column, fault.frame as int)
            &&& forall|frame: int|
                0 <= frame < fault.frame ==> #[trigger] self.prefab_fits(rows, fault.column, frame)
            &&& self.prefabs_fit_before(rows, fault.prefab->Some_0 as int)
        }
    }

    /// The sheet can be cut: it holds whole frames, the cut lies within the
    /// tile, every corner type that is used has a column, and every crop
    /// lies within the sheet.
    pub open spec fn sheet_ok(self, rows: Seq<Seq<Color>>) -> bool {
        &&& self.frames_divide(rows)
        &&& self.cut_within_icon()
        &&& self.types_fit_before(rows, 5)
        &&& self.prefabs_fit_before(rows, 256)
    }

    /// `error` is what is reported of a sheet that cannot be cut: the first
    /// of these that fails.
    pub open spec fn sheet_fault(self, rows: Seq<Seq<Color>>, error: ProcessorError) -> bool {
        match error {
            ProcessorError::FrameHeight { image_height, icon_height } => !self.frames_divide(rows)
                && image_height == rows.len() && icon_height == self.icon_size.y,
            ProcessorError::CutOutsideIcon { cut, icon } => self.frames_divide(rows)
                && !self.cut_within_icon() && cut == self.cut_pos && icon == self.icon_size,
            ProcessorError::MissingPosition(corner_type) => self.frames_divide(rows)
                && self.cut_within_icon() && self.uses(corner_type) && self.positions.column(
                corner_type,
            ) is None && self.types_fit_before(rows, corner_type.ordinal()),
            ProcessorError::CropOutOfBounds(fault) => self.frames_divide(rows)
                && self.cut_within_icon() && self.first_misfit(rows, fault),
            _ => false,
        }
    }

    /// The stretch of the tile that belongs to a side.
    #[must_use]
    pub fn get_side_info(&self, side: Side) -> (spacing: SideSpacing)
        ensures
            spacing == self.side_info(side),
    {
        match side {
            Side::North => SideSpacing { start: 0, end: self.cut_pos.y },
            Side::South => SideSpacing { start: self.cut_pos.y, end: self.icon_size.y },
            Side::East => SideSpacing { start: self.cut_pos.x, end: self.icon_size.x },
            Side::West => SideSpacing { start: 0, end: self.cut_pos.x },
        }
    }

    /// Cuts the frames of one corner out of a column.
    fn cut_corner(
        &self,
        img: &DynamicImage,
        size: (u32, u32),
        position: u32,
        corner: Corner,
        num_frames: u32,
    ) -> (cut: Result<Vec<DynamicImage>, CropFault>)
        requires
            self.cut_within_icon(),
            has_size(image_rows(*img), size.0 as int, size.1 as int),
        ensures
            match cut {
                Ok(frames) => self.cut_for(
                    image_rows(*img),
                    position,
                    corner,
                    num_frames as int,
                    frames@,
                ),
                Err(fault) => fault.frame < num_frames && fault == self.corner_fault(
                    None,
                    position,
                    corner,
                    fault.frame,
                ) && !self.corner_fits(image_rows(*img), position, corner, fault.frame as int)
                    && forall|frame: int|
                    0 <= frame < fault.frame ==> #[trigger] self.corner_fits(
                        image_rows(*img),
                        position,
                        corner,
                        frame,
                    ),
            },
    {
        let ghost rows = image_rows(*img);
        let (x_side, y_side) = corner.sides_of_corner();
        let x_spacing = self.get_side_info(x_side);
        let y_spacing = self.get_side_info(y_side);
        let width = x_spacing.step();
        let height = y_spacing.step();
        let x = offset(position, self.icon_size.x, x_spacing.start);
        let mut frames: Vec<DynamicImage> = Vec::new();
        let mut frame_num: u32 = 0;
        while frame_num < num_frames
            invariant
                frame_num <= num_frames,
                self.cut_within_icon(),
                rows == image_rows(*img),
                has_size(rows, size.0 as int, size.1 as int),
                x == self.corner_left(position, corner),
                x <= 0xffff_ffff * 0xffff_ffff + 0xffff_ffff,
                width == self.corner_width(corner),
                height == self.corner_height(corner),
                y_spacing == self.side_info(corner.vertical_side()),
                self.cut_for(rows, position, corner, frame_num as int, frames@),
            decreases num_frames - frame_num,
        {
            let y = offset(frame_num, self.icon_size.y, y_spacing.start);
            let fits = y + height as u64 <= size.1 as u64 && (size.1 == 0 || x + width as u64
                <= size.0 as u64);
            proof {
                if size.1 > 0 {
                    assert(rows[0].len() == size.0);
                }
                assert(fits == self.corner_fits(rows, position, corner, frame_num as int));
            }
            if !fits {
                return Err(
                    CropFault {
                        corner_type: None,
                        corner: Some(corner),
                        prefab: None,
                        column: position,
                        frame: frame_num,
                        x,
                        y,
                        width,
                        height,
                    },
                );
            }
            proof {
                if size.1 == 0 {
                    assert(y == 0 && height == 0);
                }
                assert(y <= u32::MAX);
            }
            let left: u32 = if x <= u32::MAX as u64 {
                x as u32
            } else {
                0
            };
            proof {
                if size.1 == 0 {
                    assert(cropped(rows, left as int, y as int, width as int, height as int)
                        =~= cropped(rows, x as int, y as int, width as int, height as int));
                    assert(holds_rect(rows, left as int, y as int, width as int, height as int));
                }
            }
            let corner_img = crop_image(img, left, y as u32, width, height);
            let ghost before = frames@;
            frames.push(corner_img);
            proof {
                assert forall|frame: int| 0 <= frame < frame_num + 1 implies image_rows(
                    #[trigger] frames@[frame],
                ) == self.corner_crop(rows, position, corner, frame) by {
                    if frame < frame_num {
                        assert(frames@[frame] == before[frame]);
                    }
                }
            }
            frame_num += 1;
        }
        Ok(frames)
    }

    /// Cuts the four corners of one column of the sheet, frame by frame.
    ///
    /// A corner's crop begins at the start of its two sides within the tile
    /// of the column and the frame, and is as large as the two sides are
    /// long. The cut must lie within the tile, and every crop within the
    /// sheet: the first that does not is reported.
    pub fn build_corner(&self, img: &DynamicImage, position: u32, num_frames: u32) -> (built: Result<
        CornerFrames,
        ProcessorError,
    >)
        ensures
            match built {
                Ok(set) => self.cut_within_icon() && self.cut_column(
                    image_rows(*img),
                    position,
                    num_frames as int,
                    set,
                ),
                Err(ProcessorError::CutOutsideIcon { cut, icon }) => !self.cut_within_icon() && cut
                    == self.cut_pos && icon == self.icon_size,
                Err(ProcessorError::CropOutOfBounds(fault)) => self.cut_within_icon()
                    && fault.corner is Some && fault.frame < num_frames && fault
                    == self.corner_fault(None, position, fault.corner->Some_0, fault.frame)
                    && !self.corner_fits(
                    image_rows(*img),
                    position,
                    fault.corner->Some_0,
                    fault.frame as int,
                ) && self.fits_before(
                    image_rows(*img),
                    position,
                    fault.corner->Some_0,
                    fault.frame as int,
                    num_frames as int,
                ),
                Err(_) => false,
            },
    {
        if self.cut_pos.x > self.icon_size.x || self.cut_pos.y > self.icon_size.y {
            return Err(ProcessorError::CutOutsideIcon { cut: self.cut_pos, icon: self.icon_size });
        }
        let ghost rows = image_rows(*img);
        let size = image_size(img);
        let north_east = match self.cut_corner(img, size, position, Corner::NorthEast, num_frames) {
            Ok(frames) => frames,
            Err(fault) => {
                return Err(ProcessorError::CropOutOfBounds(fault));
            },
        };
        let south_east = match self.cut_corner(img, size, position, Corner::SouthEast, num_frames) {
            Ok(frames) => frames,
            Err(fault) => {
                return Err(ProcessorError::CropOutOfBounds(fault));
            },
        };
        let south_west = match self.cut_corner(img, size, position, Corner::SouthWest, num_frames) {
            Ok(frames) => frames,
            Err(fault) => {
                return Err(ProcessorError::CropOutOfBounds(fault));
            },
        };
        let north_west = match self.cut_corner(img, size, position, Corner::NorthWest, num_frames) {
            Ok(frames) => frames,
            Err(fault) => {
                return Err(ProcessorError::CropOutOfBounds(fault));
            },
        };
        let set = CornerFrames { north_east, south_east, south_west, north_west };
        proof {
            assert forall|corner: Corner| #[trigger]
                self.cut_for(rows, position, corner, num_frames as int, set.frames(corner)) by {
                match corner {
                    Corner::NorthEast => {},
                    Corner::SouthEast => {},
                    Corner::SouthWest => {},
                    Corner::NorthWest => {},
                }
            }
        }
        Ok(set)
    }
}

impl BitmaskSlice {
    /// Cuts the frames of a literal tile out of a column.
    fn cut_prefab(&self, img: &DynamicImage, size: (u32, u32), bits: u8, column: u32, num_frames: u32) -> (cut:
        Result<Vec<DynamicImage>, CropFault>)
        requires
            has_size(image_rows(*img), size.0 as int, size.1 as int),
        ensures
            match cut {
                Ok(frames) => self.prefab_cut(image_rows(*img), column, num_frames as int, frames@),
                Err(fault) => fault.frame < num_frames && fault == self.prefab_fault(
                    bits,
                    column,
                    fault.frame,
                ) && !self.prefab_fits(image_rows(*img), column, fault.frame as int) && forall|
                    frame: int,
                |
                    0 <= frame < fault.frame ==> #[trigger] self.prefab_fits(
                        image_rows(*img),
                        column,
                        frame,
                    ),
            },
    {
        let ghost rows = image_rows(*img);
        let x = offset(column, self.icon_size.x, 0);
        let width = self.icon_size.x;
        let height = self.icon_size.y;
        let mut frames: Vec<DynamicImage> = Vec::new();
        let mut frame: u32 = 0;
        while frame < num_frames
            invariant
                frame <= num_frames,
                rows == image_rows(*img),
                has_size(rows, size.0 as int, size.1 as int),
                x == column * self.icon_size.x,
                x <= 0xffff_ffff * 0xffff_ffff + 0xffff_ffff,
                width == self.icon_size.x,
                height == self.icon_size.y,
                self.prefab_cut(rows, column, frame as int, frames@),
            decreases num_frames - frame,
        {
            let y = offset(frame, self.icon_size.y, 0);
            let fits = y + height as u64 <= size.1 as u64 && (size.1 == 0 || x + width as u64
                <= size.0 as u64);
            proof {
                if size.1 > 0 {
                    assert(rows[0].len() == size.0);
                }
                assert(fits == self.prefab_fits(rows, column, frame as int));
            }
            if !fits {
                return Err(
                    CropFault {
                        corner_type: None,
                        corner: None,
                        prefab: Some(bits),
                        column,
                        frame,
                        x,
                        y,
                        width,
                        height,
                    },
                );
            }
            let left: u32 = if x <= u32::MAX as u64 {
                x as u32
            } else {
                0
            };
            proof {
                if size.1 == 0 {
                    assert(y == 0 && height == 0);
                    assert(cropped(rows, left as int, y as int, width as int, height as int)
                        =~= cropped(rows, x as int, y as int, width as int, height as int));
                    assert(holds_rect(rows, left as int, y as int, width as int, height as int));
                }
            }
            let tile = crop_image(img, left, y as u32, width, height);
            let ghost before = frames@;
            frames.push(tile);
            proof {
                assert forall|at: int| 0 <= at < frame + 1 implies image_rows(
                    #[trigger] frames@[at],
                ) == self.prefab_crop(rows, column, at) by {
                    if at < frame {
                        assert(frames@[at] == before[at]);
                    }
                }
            }
            frame += 1;
        }
        Ok(frames)
    }

    /// Cuts the source sheet into the crops that the tiles are put together
    /// from: for every corner type that is used the four corners of its
    /// column, and for every literal tile its column, each frame by frame.
    ///
    /// The sheet must hold whole frames and the cut must lie within the
    /// tile; every corner type that is used needs a column; and every crop
    /// must lie within the sheet. What fails first is reported.
    pub fn generate_corners(&self, img: &DynamicImage) -> (cut: Result<
        (CornerPayload, PrefabPayload),
        ProcessorError,
    >)
        ensures
            match cut {
                Ok((corners, prefabs)) => self.sheet_ok(image_rows(*img)) && self.corners_cut(
                    image_rows(*img),
                    corners,
                ) && self.prefabs_cut(image_rows(*img), prefabs),
                Err(error) => self.sheet_fault(image_rows(*img), error),
            },
    {
        let ghost rows = image_rows(*img);
        let size = image_size(img);
        let height = size.1;
        if self.icon_size.y == 0 || height % self.icon_size.y != 0 {
            return Err(
                ProcessorError::FrameHeight { image_height: height, icon_height: self.icon_size.y },
            );
        }
        if self.cut_pos.x > self.icon_size.x || self.cut_pos.y > self.icon_size.y {
            return Err(ProcessorError::CutOutsideIcon { cut: self.cut_pos, icon: self.icon_size });
        }
        let num_frames = height / self.icon_size.y;
        let corner_types = if self.smooth_diagonally {
            CornerType::diagonal()
        } else {
            CornerType::cardinal()
        };
        let mut corner_map = CornerPayload::new();
        let mut index: usize = 0;
        while index < corner_types.len()
            invariant
                index <= corner_types.len(),
                rows == image_rows(*img),
                has_size(rows, size.0 as int, size.1 as int),
                num_frames == self.frame_count(rows),
                self.frames_divide(rows),
                self.cut_within_icon(),
                corner_types@ == if self.smooth_diagonally {
                    CornerType::diagonal_types()
                } else {
                    CornerType::cardinal_types()
                },
                self.types_fit_before(rows, index as int),
                forall|corner_type: CornerType|
                    if corner_type.ordinal() < index {
                        &&& self.positions.column(corner_type) is Some
                        &&& (#[trigger] corner_map.set(corner_type)) is Some
                        &&& self.cut_column(
                            rows,
                            self.positions.column(corner_type)->Some_0,
                            self.frame_count(rows),
                            corner_map.set(corner_type)->Some_0,
                        )
                    } else {
                        (#[trigger] corner_map.set(corner_type)) is None
                    },
            decreases corner_types.len() - index,
        {
            let corner_type = corner_types[index];
            assert(corner_type.ordinal() == index && self.uses(corner_type));
            let position = match self.positions.get(corner_type) {
                Some(position) => position,
                None => {
                    return Err(ProcessorError::MissingPosition(corner_type));
                },
            };
            let corners = match self.build_corner(img, position, num_frames) {
                Ok(corners) => corners,
                Err(ProcessorError::CropOutOfBounds(fault)) => {
                    let named = CropFault { corner_type: Some(corner_type), ..fault };
                    return Err(ProcessorError::CropOutOfBounds(named));
                },
                Err(other) => {
                    return Err(other);
                },
            };
            let ghost before = corner_map;
            corner_map.insert(corner_type, corners);
            proof {
                assert forall|other: CornerType|
                    self.uses(other) && other.ordinal() < index + 1 implies (
                #[trigger] self.positions.column(other)) is Some && forall|
                    corner: Corner,
                    frame: int,
                |
                    0 <= frame < self.frame_count(rows) ==> #[trigger] self.corner_fits(
                        rows,
                        self.positions.column(other)->Some_0,
                        corner,
                        frame,
                    ) by {
                    if other.ordinal() == index {
                        assert(other == corner_type);
                        assert forall|corner: Corner, frame: int|
                            0 <= frame < self.frame_count(rows) implies #[trigger] self.corner_fits(
                            rows,
                            position,
                            corner,
                            frame,
                        ) by {
                            assert(self.cut_for(
                                rows,
                                position,
                                corner,
                                num_frames as int,
                                corners.frames(corner),
                            ));
                        }
                    }
                }
                assert forall|other: CornerType|
                    if other.ordinal() < index + 1 {
                        &&& self.positions.column(other) is Some
                        &&& (#[trigger] corner_map.set(other)) is Some
                        &&& self.cut_column(
                            rows,
                            self.positions.column(other)->Some_0,
                            self.frame_count(rows),
                            corner_map.set(other)->Some_0,
                        )
                    } else {
                        (#[trigger] corner_map.set(other)) is None
                    } by {
                    if other != corner_type {
                        assert(corner_map.set(other) == before.set(other));
                    }
                }
            }
            index += 1;
        }
        proof {
            assert forall|corner_type: CornerType|
                self.uses(corner_type) <==> corner_type.ordinal() < index by {
                match corner_type {
                    CornerType::Convex => {},
                    CornerType::Concave => {},
                    CornerType::Horizontal => {},
                    CornerType::Vertical => {},
                    CornerType::Flat => {},
                }
            }
            assert(self.types_fit_before(rows, 5));
        }
        let mut prefabs = PrefabPayload::new();
        let mut signature: usize = 0;
        while signature < 256
            invariant
                signature <= 256,
                rows == image_rows(*img),
                has_size(rows, size.0 as int, size.1 as int),
                num_frames == self.frame_count(rows),
                prefabs.wf(),
                self.frames_divide(rows),
                self.cut_within_icon(),
                self.types_fit_before(rows, 5),
                self.prefabs_fit_before(rows, signature as int),
                forall|bits: u8|
                    if bits < signature && prefab_column(self.prefabs, bits) is Some {
                        &&& (#[trigger] prefabs.frames_of(bits)) is Some
                        &&& self.prefab_cut(
                            rows,
                            prefab_column(self.prefabs, bits)->Some_0,
                            self.frame_count(rows),
                            prefabs.frames_of(bits)->Some_0@,
                        )
                    } else {
                        (#[trigger] prefabs.frames_of(bits)) is None
                    },
            decreases 256 - signature,
        {
            let bits = signature as u8;
            match prefab_lookup(&self.prefabs, bits) {
                Some(column) => {
                    let frames = match self.cut_prefab(img, size, bits, column, num_frames) {
                        Ok(frames) => frames,
                        Err(fault) => {
                            return Err(ProcessorError::CropOutOfBounds(fault));
                        },
                    };
                    let ghost before = prefabs;
                    prefabs.insert(bits, frames);
                    proof {
                        assert forall|other: u8|
                            if other < signature + 1 && prefab_column(self.prefabs, other) is Some {
                                &&& (#[trigger] prefabs.frames_of(other)) is Some
                                &&& self.prefab_cut(
                                    rows,
                                    prefab_column(self.prefabs, other)->Some_0,
                                    self.frame_count(rows),
                                    prefabs.frames_of(other)->Some_0@,
                                )
                            } else {
                                (#[trigger] prefabs.frames_of(other)) is None
                            } by {
                            if other != bits {
                                assert(prefabs.frames_of(other) == before.frames_of(other));
                            }
                        }
                    }
                },
                None => {},
            }
            signature += 1;
        }
        Ok((corner_map, prefabs))
    }
}

impl BitmaskSlice {
    /// The output canvas before anything is drawn on it.
    pub open spec fn canvas(self) -> Seq<Seq<Color>> {
        filled(clear(), self.output_icon_size.x as int, self.output_icon_size.y as int)
    }

    /// The canvas with the first `count` corners of a signature laid on, in
    /// the order of `Corner::all()`. Each corner is the crop of the type
    /// that the signature gives it, blended over the canvas where its two
    /// sides begin.
    pub open spec fn composed(
        self,
        corners: CornerPayload,
        signature: Adjacency,
        frame: int,
        count: int,
    ) -> Seq<Seq<Color>>
        decreases count,
    {
        if count <= 0 {
            self.canvas()
        } else {
            let corner = Corner::all()[count - 1];
            overlaid(
                self.composed(corners, signature, frame, count - 1),
                image_rows(
                    corners.set(signature.corner_type(corner))->Some_0.frames(corner)[frame],
                ),
                self.side_info(corner.horizontal_side()).start as int,
                self.side_info(corner.vertical_side()).start as int,
            )
        }
    }

    /// The canvas with the literal tile of a signature in place of its own
    /// pixels, at the configured place.
    pub open spec fn literal(self, prefabs: PrefabPayload, bits: u8, frame: int) -> Seq<
        Seq<Color>,
    > {
        replaced(
            self.canvas(),
            image_rows(prefabs.frames_of(bits)->Some_0@[frame]),
            self.output_icon_pos.x as int,
            self.output_icon_pos.y as int,
        )
    }

    /// A frame of the tile of a signature: its literal tile where it has
    /// one, else its four corners put together.
    pub open spec fn assembled(
        self,
        corners: CornerPayload,
        prefabs: PrefabPayload,
        bits: u8,
        frame: int,
    ) -> Seq<Seq<Color>> {
        if prefabs.frames_of(bits) is Some {
            self.literal(prefabs, bits, frame)
        } else {
            self.composed(corners, Adjacency::of(bits), frame, 4)
        }
    }

    /// The crops hold what the tiles of the first `possible_states`
    /// signatures are made of: for a signature with a literal tile a frame
    /// of it for each frame, for any other a frame of each corner in the
    /// type that the signature gives it.
    pub open spec fn can_assemble(
        self,
        corners: CornerPayload,
        prefabs: PrefabPayload,
        num_frames: int,
        possible_states: int,
    ) -> bool {
        &&& prefabs.wf()
        &&& possible_states <= 256
        &&& num_frames > 0 ==> forall|bits: u8|
            bits < possible_states ==> if (#[trigger] prefabs.frames_of(bits)) is Some {
                prefabs.frames_of(bits)->Some_0.len() >= num_frames
            } else {
                forall|corner: Corner|
                    (#[trigger] corners.set(Adjacency::of(bits).corner_type(corner))) is Some
                        && corners.set(Adjacency::of(bits).corner_type(corner))->Some_0.frames(
                        corner,
                    ).len() >= num_frames
            }
    }

    /// `tiles` holds the frames of the tile of every signature below
    /// `count`, in the order of the signatures.
    pub open spec fn tiles_made(
        self,
        corners: CornerPayload,
        prefabs: PrefabPayload,
        num_frames: int,
        count: int,
        tiles: Seq<Vec<DynamicImage>>,
    ) -> bool {
        &&& tiles.len() == count
        &&& forall|signature: int|
            0 <= signature < count ==> (#[trigger] tiles[signature]).len() == num_frames
        &&& forall|signature: int, frame: int|
            0 <= signature < count && 0 <= frame < num_frames ==> image_rows(
                #[trigger] tiles[signature][frame],
            ) == self.assembled(corners, prefabs, signature as u8, frame)
    }

    /// Puts one frame of a tile together from its four corners.
    fn compose_frame(&self, corners: &CornerPayload, signature: Adjacency, frame: u32) -> (image:
        DynamicImage)
        requires
            4 * self.output_icon_size.x * self.output_icon_size.y <= usize::MAX,
            forall|corner: Corner|
                (#[trigger] corners.set(signature.corner_type(corner))) is Some && corners.set(
                    signature.corner_type(corner),
                )->Some_0.frames(corner).len() > frame,
        ensures
            image_rows(image) == self.composed(*corners, signature, frame as int, 4),
    {
        let mut frame_image = blank_image(self.output_icon_size.x, self.output_icon_size.y);
        let all = Corner::every();
        let mut index: usize = 0;
        while index < 4
            invariant
                index <= 4,
                all@ == Corner::all(),
                image_is_rgba8(frame_image),
                forall|corner: Corner|
                    (#[trigger] corners.set(signature.corner_type(corner))) is Some && corners.set(
                        signature.corner_type(corner),
                    )->Some_0.frames(corner).len() > frame,
                image_rows(frame_image) == self.composed(
                    *corners,
                    signature,
                    frame as int,
                    index as int,
                ),
            decreases 4 - index,
        {
            let corner = all[index];
            let corner_type = signature.get_corner_type(corner);
            assert(corners.set(signature.corner_type(corner)) is Some);
            let set = corners.get(corner_type).unwrap();
            let corner_img = &set.get(corner)[frame as usize];
            let (horizontal, vertical) = corner.sides_of_corner();
            let horizontal = self.get_side_info(horizontal);
            let vertical = self.get_side_info(vertical);
            overlay_image(&mut frame_image, corner_img, horizontal.start, vertical.start);
            index += 1;
        }
        frame_image
    }

    /// Puts together the tile of every signature below `possible_states`,
    /// frame by frame, on a clear canvas of the output size. A signature
    /// with a literal tile takes it as it is, at the configured place; any
    /// other is made of its four corners, each in the type that the
    /// signature gives it.
    ///
    /// The tiles come in the order of their signatures.
    #[must_use]
    pub fn generate_icons(
        &self,
        corners: &CornerPayload,
        prefabs: &PrefabPayload,
        num_frames: u32,
        possible_states: usize,
    ) -> (tiles: Vec<Vec<DynamicImage>>)
        requires
            self.can_assemble(*corners, *prefabs, num_frames as int, possible_states as int),
            4 * self.output_icon_size.x * self.output_icon_size.y <= usize::MAX,
        ensures
            self.tiles_made(
                *corners,
                *prefabs,
                num_frames as int,
                possible_states as int,
                tiles@,
            ),
    {
        let mut assembled: Vec<Vec<DynamicImage>> = Vec::new();
        let mut signature: usize = 0;
        while signature < possible_states
            invariant
                signature <= possible_states <= 256,
                self.can_assemble(*corners, *prefabs, num_frames as int, possible_states as int),
                4 * self.output_icon_size.x * self.output_icon_size.y <= usize::MAX,
                self.tiles_made(*corners, *prefabs, num_frames as int, signature as int, assembled@),
            decreases possible_states - signature,
        {
            let bits = signature as u8;
            let adjacency = Adjacency { bits };
            let mut icon_state_images: Vec<DynamicImage> = Vec::new();
            let mut frame: u32 = 0;
            while frame < num_frames
                invariant
                    frame <= num_frames,
                    bits == signature < possible_states <= 256,
                    adjacency == Adjacency::of(bits),
                    self.can_assemble(*corners, *prefabs, num_frames as int, possible_states as int),
                    4 * self.output_icon_size.x * self.output_icon_size.y <= usize::MAX,
                    icon_state_images.len() == frame,
                    forall|at: int|
                        0 <= at < frame ==> image_rows(#[trigger] icon_state_images[at])
                            == self.assembled(*corners, *prefabs, bits, at),
                decreases num_frames - frame,
            {
                let frame_image = match prefabs.get(bits) {
                    Some(tile) => {
                        let mut frame_image = blank_image(
                            self.output_icon_size.x,
                            self.output_icon_size.y,
                        );
                        replace_image(
                            &mut frame_image,
                            &tile[frame as usize],
                            self.output_icon_pos.x,
                            self.output_icon_pos.y,
                        );
                        frame_image
                    },
                    None => {
                        assert forall|corner: Corner|
                            (#[trigger] corners.set(adjacency.corner_type(corner))) is Some
                                && corners.set(adjacency.corner_type(corner))->Some_0.frames(
                                corner,
                            ).len() > frame by {
                            assert(prefabs.frames_of(bits) is None);
                        }
                        self.compose_frame(corners, adjacency, frame)
                    },
                };
                let ghost before = icon_state_images@;
                icon_state_images.push(frame_image);
                proof {
                    assert forall|at: int| 0 <= at < frame + 1 implies image_rows(
                        #[trigger] icon_state_images[at],
                    ) == self.assembled(*corners, *prefabs, bits, at) by {
                        if at < frame {
                            assert(icon_state_images[at] == before[at]);
                        }
                    }
                }
                frame += 1;
            }
            let ghost before = assembled@;
            assembled.push(icon_state_images);
            proof {
                assert forall|at: int| 0 <= at < signature + 1 implies (
                #[trigger] assembled@[at]).len() == num_frames by {
                    if at < signature {
                        assert(assembled@[at] == before[at]);
                    }
                }
                assert forall|at: int, frame: int|
                    0 <= at < signature + 1 && 0 <= frame < num_frames implies image_rows(
                    #[trigger] assembled@[at][frame],
                ) == self.assembled(*corners, *prefabs, at as u8, frame) by {
                    if at < signature {
                        assert(assembled@[at] == before[at]);
                    }
                }
            }
            signature += 1;
        }
        assembled
    }
}

impl BitmaskSlice {
    /// The number of signatures: all patterns of the eight neighbours where
    /// diagonals are smoothed, else those of the four cardinals.
    pub open spec fn possible_states(self) -> int {
        if self.smooth_diagonally {
            256
        } else {
            16
        }
    }

    /// Whether every state can be turned to the directions asked for: a
    /// signature with a diagonal neighbour can only face south, so directions
    /// and diagonal smoothing do not go together.
    pub open spec fn turns_defined(self) -> bool {
        !(self.produce_dirs && self.smooth_diagonally)
    }

    /// The directions that a state faces, in the order of the engine.
    pub open spec fn directions(self) -> Seq<Adjacency> {
        if self.produce_dirs {
            seq![
                Adjacency::of(Adjacency::S),
                Adjacency::of(Adjacency::N),
                Adjacency::of(Adjacency::E),
                Adjacency::of(Adjacency::W),
            ]
        } else {
            seq![Adjacency::of(Adjacency::S)]
        }
    }

    /// The name of the state of a signature: its number in base ten, after
    /// the prefix and a hyphen where a prefix is configured.
    pub open spec fn state_name(self, signature: nat) -> Seq<char> {
        match self.output_name {
            Some(prefix) => prefix@ + seq!['-'] + decimal(signature),
            None => decimal(signature),
        }
    }

    /// The delays of the frames: the configured delays, gone through again
    /// from the first where there are fewer than frames, and whole where
    /// there are more.
    pub open spec fn delays(self, num_frames: int) -> Option<Seq<Delay>> {
        match self.animation {
            Some(animation) => Some(extended(animation.delays@, num_frames)),
            None => None,
        }
    }

    /// The canvas with the first `count` corners of a signature laid on,
    /// each as it is cut from the sheet.
    pub open spec fn composed_from(
        self,
        rows: Seq<Seq<Color>>,
        signature: Adjacency,
        frame: int,
        count: int,
    ) -> Seq<Seq<Color>>
        decreases count,
    {
        if count <= 0 {
            self.canvas()
        } else {
            let corner = Corner::all()[count - 1];
            overlaid(
                self.composed_from(rows, signature, frame, count - 1),
                self.corner_crop(
                    rows,
                    self.positions.column(signature.corner_type(corner))->Some_0,
                    corner,
                    frame,
                ),
                self.side_info(corner.horizontal_side()).start as int,
                self.side_info(corner.vertical_side()).start as int,
            )
        }
    }

    /// A frame of the tile of a signature, as it is made from the sheet: the
    /// literal tile of the signature on a clear canvas, where one is
    /// configured, and else the four corners put together.
    pub open spec fn tile(self, rows: Seq<Seq<Color>>, bits: u8, frame: int) -> Seq<Seq<Color>> {
        match prefab_column(self.prefabs, bits) {
            Some(column) => replaced(
                self.canvas(),
                self.prefab_crop(rows, column, frame),
                self.output_icon_pos.x as int,
                self.output_icon_pos.y as int,
            ),
            None => self.composed_from(rows, Adjacency::of(bits), frame, 4),
        }
    }

    /// `state` is the state of a signature: named after it, with the frames
    /// of each direction one after the other. The frames of a direction are
    /// those of the tile whose signature is the state's, turned to face the
    /// direction.
    pub open spec fn state_made(
        self,
        rows: Seq<Seq<Color>>,
        signature: int,
        state: IconState,
    ) -> bool {
        let count = self.frame_count(rows);
        &&& state.name@ == self.state_name(signature as nat)
        &&& state.dirs == self.directions().len()
        &&& state.frames == count
        &&& state.images.len() == self.directions().len() * count
        &&& forall|at: int|
            0 <= at < state.images.len() ==> image_rows(#[trigger] state.images[at]) == self.tile(
                rows,
                Adjacency::of(signature as u8).turned(self.directions()[at / count]).bits,
                at % count,
            )
        &&& match state.delay {
            Some(delays) => self.delays(count) == Some(delays@),
            None => self.delays(count) is None,
        }
    }

    /// `icon` is the icon that the sheet gives: of the output size, with a
    /// state for every signature in the order of the signatures, and after
    /// them the map icon where one is configured.
    pub open spec fn icon_made(self, rows: Seq<Seq<Color>>, sheet: Seq<Seq<Color>>, icon: Icon) -> bool {
        &&& icon.width == self.output_icon_size.x
        &&& icon.height == self.output_icon_size.y
        &&& icon.states.len() == self.possible_states() + if self.map_icon is Some {
            1int
        } else {
            0
        }
        &&& forall|signature: int|
            0 <= signature < self.possible_states() ==> self.state_made(
                rows,
                signature,
                #[trigger] icon.states[signature],
            )
        &&& self.map_icon is Some ==> self.map_state_made(
            sheet,
            icon.states[self.possible_states()],
        )
    }

    /// `state` is the state of the map icon: one frame, drawn as
    /// configured.
    pub open spec fn map_state_made(self, sheet: Seq<Seq<Color>>, state: IconState) -> bool {
        &&& self.map_icon is Some
        &&& state.name@ == self.map_icon->Some_0.icon_state_name@
        &&& state.dirs == 1
        &&& state.frames == 1
        &&& state.delay is None
        &&& state.images.len() == 1
        &&& image_rows(state.images[0]) == map_icon_rows(
            self.output_icon_size.y as int,
            self.output_icon_size.x as int,
            self.map_icon->Some_0,
            sheet,
        )
    }

    /// What becomes of the map icon: its state where one is configured and
    /// can be drawn, or what stands against it.
    pub open spec fn map_state_done(
        self,
        sheet: Seq<Seq<Color>>,
        done: Result<Option<IconState>, ProcessorError>,
    ) -> bool {
        let lettered = self.map_icon is Some ==> is_glyph_sheet(sheet);
        match done {
            Ok(Some(state)) => lettered && self.map_state_made(sheet, state) && map_icon_fits(
                self.output_icon_size.y as int,
                self.output_icon_size.x as int,
                self.map_icon->Some_0,
            ),
            Ok(None) => self.map_icon is None,
            Err(ProcessorError::FormatError(_)) => !lettered,
            Err(ProcessorError::GenerationError(error)) => lettered && self.map_icon is Some
                && map_icon_fault(
                self.output_icon_size.y as int,
                self.output_icon_size.x as int,
                self.map_icon->Some_0,
                error,
            ),
            Err(_) => false,
        }
    }

    /// What the icon is wrapped up as: alone where the mode is the standard
    /// one, after the crops in the debug mode.
    pub open spec fn wrapped_up(
        self,
        rows: Seq<Seq<Color>>,
        icon: Icon,
        mode: OperationMode,
        done: Result<ProcessorPayload, ProcessorError>,
    ) -> bool {
        match done {
            Ok(payload) => match mode {
                OperationMode::Standard => payload is Single && *payload->Single_0
                    == OutputImage::Dmi(icon),
                OperationMode::Debug => payload is MultipleNamed && payload->MultipleNamed_0.len()
                    == self.debug_count(rows) + 1 && self.debug_part(
                    rows,
                    payload->MultipleNamed_0@.drop_last(),
                ) && payload->MultipleNamed_0@.last().path_hint is None
                    && payload->MultipleNamed_0@.last().name_hint is None
                    && payload->MultipleNamed_0@.last().image == OutputImage::Dmi(icon),
            },
            Err(ProcessorError::OutputTooLarge { width, height }) => mode is Debug
                && self.frame_count(rows) > 0 && !self.debug_canvas_fits() && height
                == self.icon_size.y,
            Err(_) => false,
        }
    }

    /// The corners that were cut from a sheet give the tiles that the sheet
    /// gives.
    pub proof fn lemma_composed(
        self,
        rows: Seq<Seq<Color>>,
        corners: CornerPayload,
        bits: u8,
        frame: int,
        count: int,
    )
        requires
            self.corners_cut(rows, corners),
            0 <= frame < self.frame_count(rows),
            0 <= count <= 4,
            bits < self.possible_states(),
        ensures
            self.composed(corners, Adjacency::of(bits), frame, count) == self.composed_from(
                rows,
                Adjacency::of(bits),
                frame,
                count,
            ),
        decreases count,
    {
        if count > 0 {
            self.lemma_composed(rows, corners, bits, frame, count - 1);
            let corner = Corner::all()[count - 1];
            let corner_type = Adjacency::of(bits).corner_type(corner);
            lemma_cardinal_shapes(bits, corner);
            assert(self.uses(corner_type));
            assert(corners.set(corner_type) is Some);
            let set = corners.set(corner_type)->Some_0;
            assert(self.cut_for(
                rows,
                self.positions.column(corner_type)->Some_0,
                corner,
                self.frame_count(rows),
                set.frames(corner),
            ));
            assert(image_rows(set.frames(corner)[frame]) == self.corner_crop(
                rows,
                self.positions.column(corner_type)->Some_0,
                corner,
                frame,
            ));
        }
    }

    /// The crops of a sheet give the tiles that the sheet gives, and hold
    /// what every tile is made of.
    pub proof fn lemma_tiles(self, rows: Seq<Seq<Color>>, corners: CornerPayload, prefabs: PrefabPayload)
        requires
            self.corners_cut(rows, corners),
            self.prefabs_cut(rows, prefabs),
            self.frames_divide(rows),
        ensures
            self.can_assemble(corners, prefabs, self.frame_count(rows), self.possible_states()),
            forall|bits: u8, frame: int|
                bits < self.possible_states() && 0 <= frame < self.frame_count(rows)
                    ==> #[trigger] self.assembled(corners, prefabs, bits, frame) == self.tile(
                    rows,
                    bits,
                    frame,
                ),
    {
        let count = self.frame_count(rows);
        assert forall|bits: u8, frame: int|
            bits < self.possible_states() && 0 <= frame < count implies #[trigger] self.assembled(
            corners,
            prefabs,
            bits,
            frame,
        ) == self.tile(rows, bits, frame) by {
            if prefab_column(self.prefabs, bits) is Some {
                assert(prefabs.frames_of(bits) is Some);
                let frames = prefabs.frames_of(bits)->Some_0@;
                assert(image_rows(frames[frame]) == self.prefab_crop(
                    rows,
                    prefab_column(self.prefabs, bits)->Some_0,
                    frame,
                ));
            } else {
                assert(prefabs.frames_of(bits) is None);
                self.lemma_composed(rows, corners, bits, frame, 4);
            }
        }
        if count > 0 {
            assert forall|bits: u8| bits < self.possible_states() implies if (
            #[trigger] prefabs.frames_of(bits)) is Some {
                prefabs.frames_of(bits)->Some_0.len() >= count
            } else {
                forall|corner: Corner|
                    (#[trigger] corners.set(Adjacency::of(bits).corner_type(corner))) is Some
                        && corners.set(Adjacency::of(bits).corner_type(corner))->Some_0.frames(
                        corner,
                    ).len() >= count
            } by {
                if prefabs.frames_of(bits) is None {
                    assert forall|corner: Corner|
                        (#[trigger] corners.set(Adjacency::of(bits).corner_type(corner))) is Some
                            && corners.set(Adjacency::of(bits).corner_type(corner))->Some_0.frames(
                            corner,
                        ).len() >= count by {
                        let corner_type = Adjacency::of(bits).corner_type(corner);
                        lemma_cardinal_shapes(bits, corner);
                        assert(self.uses(corner_type));
                        assert(self.cut_for(
                            rows,
                            self.positions.column(corner_type)->Some_0,
                            corner,
                            count,
                            corners.set(corner_type)->Some_0.frames(corner),
                        ));
                    }
                }
            }
        }
    }

    /// The name of the state of a signature.
    fn name_state(&self, signature: usize) -> (name: String)
        requires
            signature <= 256,
        ensures
            name@ == self.state_name(signature as nat),
    {
        let number = decimal_text(signature as u64);
        match &self.output_name {
            Some(prefix_name) => hyphenated(prefix_name.as_str(), number.as_str()),
            None => number,
        }
    }

    /// The directions that a state faces.
    fn icon_directions(&self) -> (directions: Vec<Adjacency>)
        ensures
            directions@ == self.directions(),
    {
        let mut directions: Vec<Adjacency> = Vec::new();
        directions.push(Adjacency::s());
        if self.produce_dirs {
            directions.push(Adjacency::n());
            directions.push(Adjacency::e());
            directions.push(Adjacency::w());
        }
        assert(directions@ =~= self.directions());
        directions
    }

    /// The states of an icon, made of the tiles: for every signature and
    /// every direction the frames of the tile whose signature is that one
    /// turned to face the direction. No image is turned, only the choice of
    /// the tile.
    pub fn build_states(&self, assembled: &Vec<Vec<DynamicImage>>, num_frames: u32) -> (states: Vec<
        IconState,
    >)
        requires
            self.turns_defined(),
            assembled.len() == self.possible_states(),
            forall|signature: int|
                0 <= signature < assembled.len() ==> (#[trigger] assembled[signature]).len()
                    == num_frames,
        ensures
            states.len() == self.possible_states(),
            forall|signature: int|
                0 <= signature < states.len() ==> self.state_listed(
                    assembled@,
                    num_frames as int,
                    signature,
                    #[trigger] states[signature],
                ),
    {
        let possible_states = if self.smooth_diagonally {
            SIZE_OF_DIAGONALS
        } else {
            SIZE_OF_CARDINALS
        };
        let icon_directions = self.icon_directions();
        let delay = match &self.animation {
            Some(animation) => Some(extend_delays(&animation.delays, num_frames as usize)),
            None => None,
        };
        let mut icon_states: Vec<IconState> = Vec::new();
        let mut signature: usize = 0;
        while signature < possible_states
            invariant
                self.turns_defined(),
                signature <= possible_states,
                possible_states == self.possible_states(),
                assembled.len() == possible_states,
                forall|at: int|
                    0 <= at < assembled.len() ==> (#[trigger] assembled[at]).len() == num_frames,
                icon_directions@ == self.directions(),
                match delay {
                    Some(delays) => self.delays(num_frames as int) == Some(delays@),
                    None => self.delays(num_frames as int) is None,
                },
                icon_states.len() == signature,
                forall|at: int|
                    0 <= at < signature ==> self.state_listed(
                        assembled@,
                        num_frames as int,
                        at,
                        #[trigger] icon_states[at],
                    ),
            decreases possible_states - signature,
        {
            let adjacency = Adjacency { bits: signature as u8 };
            let mut icon_state_frames: Vec<DynamicImage> = Vec::new();
            let mut facing: usize = 0;
            while facing < icon_directions.len()
                invariant
                    facing <= icon_directions.len(),
                    self.turns_defined(),
                    signature < possible_states,
                    possible_states == self.possible_states(),
                    adjacency == Adjacency::of(signature as u8),
                    assembled.len() == possible_states,
                    forall|at: int|
                        0 <= at < assembled.len() ==> (#[trigger] assembled[at]).len()
                            == num_frames,
                    icon_directions@ == self.directions(),
                    icon_state_frames.len() == facing * num_frames,
                    forall|at: int|
                        0 <= at < icon_state_frames.len() ==> image_rows(
                            #[trigger] icon_state_frames[at],
                        ) == image_rows(
                            assembled[adjacency.turned(
                                self.directions()[at / (num_frames as int)],
                            ).bits as int][at % (num_frames as int)],
                        ),
                decreases icon_directions.len() - facing,
            {
                let direction = icon_directions[facing];
                proof {
                    if self.produce_dirs {
                        let bits = signature as u8;
                        assert(bits < 16 ==> bits & 0xf0 == 0) by (bit_vector);
                    }
                }
                let rotated_sig = adjacency.rotate_to(direction);
                proof {
                    lemma_turn_stays(signature as u8, direction, self.smooth_diagonally);
                }
                let source = &assembled[rotated_sig.bits() as usize];
                let mut frame: usize = 0;
                assert(facing * num_frames + 0 == facing * num_frames);
                while frame < source.len()
                    invariant
                        frame <= source.len(),
                        source.len() == num_frames,
                        facing < icon_directions.len(),
                        icon_directions@ == self.directions(),
                        direction == self.directions()[facing as int],
                        rotated_sig == adjacency.turned(direction),
                        rotated_sig.bits < assembled.len(),
                        *source == assembled[rotated_sig.bits as int],
                        icon_state_frames.len() == facing * num_frames + frame,
                        forall|at: int|
                            0 <= at < icon_state_frames.len() ==> image_rows(
                                #[trigger] icon_state_frames[at],
                            ) == image_rows(
                                assembled[adjacency.turned(
                                    self.directions()[at / (num_frames as int)],
                                ).bits as int][at % (num_frames as int)],
                            ),
                    decreases source.len() - frame,
                {
                    let ghost before = icon_state_frames@;
                    icon_state_frames.push(copy_image(&source[frame]));
                    proof {
                        let place = facing * num_frames + frame;
                        assert((facing as int) * (num_frames as int) == (num_frames as int) * (
                        facing as int)) by (nonlinear_arith);
                        vstd::arithmetic::div_mod::lemma_fundamental_div_mod_converse(
                            place as int,
                            num_frames as int,
                            facing as int,
                            frame as int,
                        );
                        assert forall|at: int|
                            0 <= at < icon_state_frames.len() implies image_rows(
                            #[trigger] icon_state_frames[at],
                        ) == image_rows(
                            assembled[adjacency.turned(
                                self.directions()[at / (num_frames as int)],
                            ).bits as int][at % (num_frames as int)],
                        ) by {
                            if at < place {
                                assert(icon_state_frames[at] == before[at]);
                            }
                        }
                    }
                    frame += 1;
                }
                proof {
                    assert((facing + 1) * num_frames == facing * num_frames + num_frames)
                        by (nonlinear_arith);
                }
                facing += 1;
            }
            let name = self.name_state(signature);
            let delays = match &delay {
                Some(delays) => Some(delays.clone()),
                None => None,
            };
            let state = IconState {
                name,
                dirs: icon_directions.len() as u8,
                frames: num_frames,
                images: icon_state_frames,
                delay: delays,
            };
            let ghost before = icon_states@;
            icon_states.push(state);
            proof {
                assert forall|at: int| 0 <= at < signature + 1 implies self.state_listed(
                    assembled@,
                    num_frames as int,
                    at,
                    #[trigger] icon_states[at],
                ) by {
                    if at < signature {
                        assert(icon_states[at] == before[at]);
                    }
                }
            }
            signature += 1;
        }
        icon_states
    }

    /// `state` is the state of a signature, made of the tiles given.
    pub open spec fn state_listed(
        self,
        tiles: Seq<Vec<DynamicImage>>,
        count: int,
        signature: int,
        state: IconState,
    ) -> bool {
        &&& state.name@ == self.state_name(signature as nat)
        &&& state.dirs == self.directions().len()
        &&& state.frames == count
        &&& state.images.len() == self.directions().len() * count
        &&& forall|at: int|
            0 <= at < state.images.len() ==> image_rows(#[trigger] state.images[at]) == image_rows(
                tiles[Adjacency::of(signature as u8).turned(
                    self.directions()[at / count],
                ).bits as int][at % count],
            )
        &&& match state.delay {
            Some(delays) => self.delays(count) == Some(delays@),
            None => self.delays(count) is None,
        }
    }
}

/// The canvas of the given size can be held in memory, at four bytes a
/// pixel.
pub open spec fn canvas_fits(width: u32, height: u32) -> bool {
    4 * width * height <= usize::MAX
}

/// Whether a canvas of the given size can be held in memory.
pub fn fits_in_memory(width: u32, height: u32) -> (fits: bool)
    ensures
        fits == canvas_fits(width, height),
{
    assert(0 <= width * height <= 0xffff_ffff * 0xffff_ffff) by (nonlinear_arith)
        requires
            0 <= width <= 0xffff_ffff,
            0 <= height <= 0xffff_ffff,
    ;
    let pixels = width as u64 * height as u64;
    let most = (usize::MAX / 4) as u64;
    assert(4 * (width * height) == 4 * width * height) by (nonlinear_arith);
    assert(usize::MAX % 4 == 3) by {
        assert(usize::MAX == 0xffff_ffff || usize::MAX == 0xffff_ffff_ffff_ffff);
    }
    pixels <= most
}

impl BitmaskSlice {
    /// What the operation gives for an input: the icon of the sheet, or the
    /// first of the things that stand against it.
    pub open spec fn operation_done(
        self,
        input: InputIcon,
        mode: OperationMode,
        sheet: Seq<Seq<Color>>,
        done: Result<ProcessorPayload, ProcessorError>,
    ) -> bool {
        if self.turns_defined() {
            self.sheet_done(input, mode, sheet, done)
        } else {
            done is Err && done->Err_0 is DiagonalDirections
        }
    }

    /// What the operation gives where every turn that is asked for is
    /// defined.
    pub open spec fn sheet_done(
        self,
        input: InputIcon,
        mode: OperationMode,
        sheet: Seq<Seq<Color>>,
        done: Result<ProcessorPayload, ProcessorError>,
    ) -> bool {
        match input {
            InputIcon::Dmi(_) => done is Err && done->Err_0 is FormatError,
            InputIcon::DynamicImage(img) => {
                let rows = image_rows(img);
                let fits = canvas_fits(self.output_icon_size.x, self.output_icon_size.y);
                let lettered = self.map_icon is Some ==> is_glyph_sheet(sheet);
                match done {
                    Ok(payload) => {
                        &&& self.sheet_ok(rows)
                        &&& fits
                        &&& lettered
                        &&& self.map_icon is Some ==> map_icon_fits(
                            self.output_icon_size.y as int,
                            self.output_icon_size.x as int,
                            self.map_icon->Some_0,
                        )
                        &&& match mode {
                            OperationMode::Standard => payload is Single && *payload->Single_0 is Dmi
                                && self.icon_made(rows, sheet, (*payload->Single_0)->Dmi_0),
                            OperationMode::Debug => payload is MultipleNamed
                                && payload->MultipleNamed_0.len() == self.debug_count(rows) + 1
                                && self.debug_part(rows, payload->MultipleNamed_0@.drop_last())
                                && payload->MultipleNamed_0@.last().path_hint is None
                                && payload->MultipleNamed_0@.last().name_hint is None
                                && payload->MultipleNamed_0@.last().image is Dmi && self.icon_made(
                                rows,
                                sheet,
                                payload->MultipleNamed_0@.last().image->Dmi_0,
                            ),
                        }
                    },
                    Err(ProcessorError::OutputTooLarge { width, height }) => self.sheet_ok(rows) && (
                    if !fits {
                        width == self.output_icon_size.x && height == self.output_icon_size.y
                    } else {
                        &&& lettered
                        &&& self.map_icon is Some ==> map_icon_fits(
                            self.output_icon_size.y as int,
                            self.output_icon_size.x as int,
                            self.map_icon->Some_0,
                        )
                        &&& mode is Debug
                        &&& self.frame_count(rows) > 0
                        &&& !self.debug_canvas_fits()
                        &&& height == self.icon_size.y
                    }),
                    Err(ProcessorError::FormatError(_)) => self.sheet_ok(rows) && fits && !lettered,
                    Err(ProcessorError::GenerationError(error)) => self.sheet_ok(rows) && fits
                        && lettered && self.map_icon is Some && map_icon_fault(
                        self.output_icon_size.y as int,
                        self.output_icon_size.x as int,
                        self.map_icon->Some_0,
                        error,
                    ),
                    Err(error) => self.sheet_fault(rows, error),
                }
            },
        }
    }

    /// How many corner types are cut.
    pub open spec fn used_types(self) -> int {
        if self.smooth_diagonally {
            5
        } else {
            4
        }
    }

    /// The sheet of the crops, a tile for every corner type that is cut,
    /// can be held in memory.
    pub open spec fn debug_canvas_fits(self) -> bool {
        self.used_types() * self.icon_size.x <= u32::MAX && 4 * (self.used_types()
            * self.icon_size.x) * self.icon_size.y <= usize::MAX
    }

    /// How many images the debug mode hands out before the icon: the first
    /// frame of every corner of every type that is cut, and the sheet of
    /// them; nothing where the sheet has no frame.
    pub open spec fn debug_count(self, rows: Seq<Seq<Color>>) -> int {
        if self.frame_count(rows) > 0 {
            4 * self.used_types() + 1
        } else {
            0
        }
    }

    /// The state of the map icon, where one is configured.
    pub fn map_icon_state(&self, glyphs: &DynamicImage) -> (done: Result<
        Option<IconState>,
        ProcessorError,
    >)
        requires
            canvas_fits(self.output_icon_size.x, self.output_icon_size.y),
        ensures
            self.map_state_done(image_rows(*glyphs), done),
    {
        match &self.map_icon {
            Some(map_icon) => {
                let sheet_size = image_size(glyphs);
                if sheet_size.0 < 48 || sheet_size.1 < 30 {
                    proof {
                        if sheet_size.1 >= 30 {
                            assert(image_rows(*glyphs)[0].len() == sheet_size.0);
                        }
                    }
                    return Err(
                        ProcessorError::FormatError(
                            "The sheet of characters is too small".to_owned(),
                        ),
                    );
                }
                let icon = match generate_map_icon(
                    self.output_icon_size.y,
                    self.output_icon_size.x,
                    map_icon,
                    glyphs,
                ) {
                    Ok(icon) => icon,
                    Err(error) => {
                        return Err(ProcessorError::GenerationError(error));
                    },
                };
                let mut images: Vec<DynamicImage> = Vec::new();
                images.push(icon);
                Ok(
                    Some(
                        IconState {
                            name: map_icon.icon_state_name.clone(),
                            dirs: 1,
                            frames: 1,
                            images,
                            delay: None,
                        },
                    ),
                )
            },
            None => Ok(None),
        }
    }

    /// Wraps the icon up as the result of an operation: alone in the
    /// standard mode; in the debug mode after the crops of the sheet, where
    /// the sheet has a frame.
    pub fn wrap_up(
        &self,
        img: &DynamicImage,
        corners: &CornerPayload,
        output_icon: Icon,
        mode: OperationMode,
    ) -> (done: Result<ProcessorPayload, ProcessorError>)
        requires
            self.sheet_ok(image_rows(*img)),
            self.corners_cut(image_rows(*img), *corners),
        ensures
            self.wrapped_up(image_rows(*img), output_icon, mode, done),
    {
        let ghost rows = image_rows(*img);
        match mode {
            OperationMode::Debug => {
                let size = image_size(img);
                let mut out: Vec<NamedIcon> = Vec::new();
                if size.1 / self.icon_size.y > 0 {
                    let types: u64 = if self.smooth_diagonally {
                        5
                    } else {
                        4
                    };
                    let wide = types * self.icon_size.x as u64;
                    if wide > u32::MAX as u64 {
                        return Err(
                            ProcessorError::OutputTooLarge {
                                width: u32::MAX,
                                height: self.icon_size.y,
                            },
                        );
                    }
                    if !fits_in_memory(wide as u32, self.icon_size.y) {
                        return Err(
                            ProcessorError::OutputTooLarge {
                                width: wide as u32,
                                height: self.icon_size.y,
                            },
                        );
                    }
                    proof {
                        self.lemma_debug_ready(rows, *corners, size);
                    }
                    out = self.generate_debug_icons(corners);
                }
                let ghost crops = out@;
                out.push(NamedIcon::from_icon(output_icon));
                proof {
                    assert(out@.drop_last() =~= crops);
                    if self.frame_count(rows) > 0 {
                        assert(self.corners_cut(rows, *corners) && self.debug_listed(
                            *corners,
                            crops,
                        ));
                    }
                }
                Ok(ProcessorPayload::MultipleNamed(out))
            },
            OperationMode::Standard => Ok(ProcessorPayload::from_icon(output_icon)),
        }
    }

    /// `tiles` holds the frames of the tile of every signature, as the
    /// sheet gives them.
    pub open spec fn tiles_of(self, rows: Seq<Seq<Color>>, tiles: Seq<Vec<DynamicImage>>) -> bool {
        &&& tiles.len() == self.possible_states()
        &&& forall|signature: int|
            0 <= signature < tiles.len() ==> (#[trigger] tiles[signature]).len()
                == self.frame_count(rows)
        &&& forall|signature: int, frame: int|
            0 <= signature < tiles.len() && 0 <= frame < self.frame_count(rows) ==> image_rows(
                #[trigger] tiles[signature][frame],
            ) == self.tile(rows, signature as u8, frame)
    }

    /// The tiles of every signature, put together from the crops of a sheet.
    pub fn assemble_tiles(
        &self,
        img: &DynamicImage,
        corners: &CornerPayload,
        prefabs: &PrefabPayload,
    ) -> (tiles: Vec<Vec<DynamicImage>>)
        requires
            self.sheet_ok(image_rows(*img)),
            self.corners_cut(image_rows(*img), *corners),
            self.prefabs_cut(image_rows(*img), *prefabs),
            canvas_fits(self.output_icon_size.x, self.output_icon_size.y),
        ensures
            self.tiles_of(image_rows(*img), tiles@),
    {
        let ghost rows = image_rows(*img);
        let size = image_size(img);
        let num_frames = size.1 / self.icon_size.y;
        let possible_states = if self.smooth_diagonally {
            SIZE_OF_DIAGONALS
        } else {
            SIZE_OF_CARDINALS
        };
        proof {
            self.lemma_tiles(rows, *corners, *prefabs);
        }
        let tiles = self.generate_icons(corners, prefabs, num_frames, possible_states);
        proof {
            assert forall|signature: int, frame: int|
                0 <= signature < tiles.len() && 0 <= frame < self.frame_count(
                    rows,
                ) implies image_rows(#[trigger] tiles[signature][frame]) == self.tile(
                rows,
                signature as u8,
                frame,
            ) by {
                assert(self.assembled(*corners, *prefabs, signature as u8, frame) == self.tile(
                    rows,
                    signature as u8,
                    frame,
                ));
            }
        }
        tiles
    }

    /// The states of the icon that a sheet gives.
    fn states_of(
        &self,
        img: &DynamicImage,
        corners: &CornerPayload,
        prefabs: &PrefabPayload,
    ) -> (states: Vec<IconState>)
        requires
            self.turns_defined(),
            self.sheet_ok(image_rows(*img)),
            self.corners_cut(image_rows(*img), *corners),
            self.prefabs_cut(image_rows(*img), *prefabs),
            canvas_fits(self.output_icon_size.x, self.output_icon_size.y),
        ensures
            states.len() == self.possible_states(),
            forall|signature: int|
                0 <= signature < self.possible_states() ==> self.state_made(
                    image_rows(*img),
                    signature,
                    #[trigger] states[signature],
                ),
    {
        let ghost rows = image_rows(*img);
        let size = image_size(img);
        let num_frames = size.1 / self.icon_size.y;
        let possible_states = if self.smooth_diagonally {
            SIZE_OF_DIAGONALS
        } else {
            SIZE_OF_CARDINALS
        };
        proof {
            self.lemma_tiles(rows, *corners, *prefabs);
        }
        let assembled = self.generate_icons(corners, prefabs, num_frames, possible_states);
        let states = self.build_states(&assembled, num_frames);
        proof {
            let count = num_frames as int;
            assert forall|signature: int|
                0 <= signature < self.possible_states() implies self.state_made(
                rows,
                signature,
                #[trigger] states[signature],
            ) by {
                let state = states[signature];
                assert(self.state_listed(assembled@, count, signature, state));
                assert forall|at: int| 0 <= at < state.images.len() implies image_rows(
                    #[trigger] state.images[at],
                ) == self.tile(
                    rows,
                    Adjacency::of(signature as u8).turned(self.directions()[at / count]).bits,
                    at % count,
                ) by {
                    assert(count > 0) by {
                        if count == 0 {
                            assert(self.directions().len() * 0 == 0);
                        }
                    }
                    assert(count * self.directions().len() == self.directions().len() * count)
                        by (nonlinear_arith);
                    lemma_multiply_divide_lt(at, count, self.directions().len() as int);
                    lemma_div_pos_is_pos(at, count);
                    lemma_mod_pos_bound(at, count);
                    let direction = self.directions()[at / count];
                    lemma_turn_stays(signature as u8, direction, self.smooth_diagonally);
                    let turned = Adjacency::of(signature as u8).turned(direction).bits;
                    assert(image_rows(assembled@[turned as int][at % count]) == self.assembled(
                        *corners,
                        *prefabs,
                        turned,
                        at % count,
                    ));
                }
            }
        }
        states
    }
}

impl IconOperationConfig for BitmaskSlice {
    open spec fn outcome(
        &self,
        input: InputIcon,
        mode: OperationMode,
        sheet: Seq<Seq<Color>>,
        done: Result<ProcessorPayload, ProcessorError>,
    ) -> bool {
        self.operation_done(input, mode, sheet, done)
    }

    open spec fn config_outcome(&self, fault: Option<ProcessorError>) -> bool {
        match fault {
            None => self.turns_defined(),
            Some(error) => !self.turns_defined() && error is DiagonalDirections,
        }
    }

    /// Cuts the sheet and puts the tiles together as an icon. In the debug
    /// mode the crops are handed out too, before the icon. Nothing is done
    /// where directions are asked for together with diagonal smoothing.
    fn perform_operation(&self, input: &InputIcon, mode: OperationMode, glyphs: &DynamicImage) -> (done:
        Result<ProcessorPayload, ProcessorError>)
        ensures
            self.operation_done(*input, mode, image_rows(*glyphs), done),
    {
        if self.produce_dirs && self.smooth_diagonally {
            return Err(ProcessorError::DiagonalDirections);
        }
        let img = match input {
            InputIcon::DynamicImage(img) => img,
            InputIcon::Dmi(_) => {
                return Err(
                    ProcessorError::FormatError("This operation only accepts raw images".to_owned()),
                );
            },
        };
        let ghost rows = image_rows(*img);
        let (corners, prefabs) = match self.generate_corners(img) {
            Ok(cut) => cut,
            Err(error) => {
                return Err(error);
            },
        };
        if !fits_in_memory(self.output_icon_size.x, self.output_icon_size.y) {
            return Err(
                ProcessorError::OutputTooLarge {
                    width: self.output_icon_size.x,
                    height: self.output_icon_size.y,
                },
            );
        }
        let mut icon_states = self.states_of(img, &corners, &prefabs);
        let ghost listed = icon_states@;
        match self.map_icon_state(glyphs) {
            Ok(Some(state)) => {
                icon_states.push(state);
            },
            Ok(None) => {},
            Err(error) => {
                return Err(error);
            },
        }
        proof {
            assert forall|signature: int| 0 <= signature < self.possible_states() implies self.state_made(
                rows,
                signature,
                #[trigger] icon_states[signature],
            ) by {
                assert(icon_states[signature] == listed[signature]);
            }
        }
        let output_icon = Icon {
            width: self.output_icon_size.x,
            height: self.output_icon_size.y,
            states: icon_states,
        };
        self.wrap_up(img, &corners, output_icon, mode)
    }

    /// Refuses directions together with diagonal smoothing: no turn is
    /// defined for a diagonal neighbour.
    fn verify_config(&self) -> (checked: Result<(), ProcessorError>) {
        if self.produce_dirs && self.smooth_diagonally {
            Err(ProcessorError::DiagonalDirections)
        } else {
            Ok(())
        }
    }
}

impl BitmaskSlice {
    /// The width of the sheet of the crops: a tile for every corner type
    /// that was cut.
    pub open spec fn debug_width(self, corners: CornerPayload) -> int {
        corners.count() * self.icon_size.x
    }

    /// The crops can be laid out as a sheet: the sheet can be held in
    /// memory, and every corner type that was cut has a column whose place
    /// can be told in 32 bits.
    pub open spec fn debug_ready(self, corners: CornerPayload) -> bool {
        &&& self.debug_width(corners) <= u32::MAX
        &&& 4 * self.debug_width(corners) * self.icon_size.y <= usize::MAX
        &&& forall|corner_type: CornerType|
            (#[trigger] corners.set(corner_type)) is Some ==> self.positions.column(
                corner_type,
            ) is Some && self.positions.column(corner_type)->Some_0 * self.icon_size.x
                + self.cut_pos.x <= u32::MAX
    }

    /// The sheet of the crops with the first frames of the first `count`
    /// corners laid down: each in the tile of its type's column, where its
    /// two sides begin.
    pub open spec fn debug_sheet(self, corners: CornerPayload, count: int) -> Seq<Seq<Color>>
        decreases count,
    {
        if count <= 0 {
            filled(clear(), self.debug_width(corners), self.icon_size.y as int)
        } else {
            let before = self.debug_sheet(corners, count - 1);
            let corner_type = CornerType::diagonal_types()[(count - 1) / 4];
            let corner = Corner::all()[(count - 1) % 4];
            match corners.set(corner_type) {
                Some(set) => if set.frames(corner).len() > 0 {
                    replaced(
                        before,
                        image_rows(set.frames(corner)[0]),
                        self.positions.column(corner_type)->Some_0 * self.icon_size.x
                            + self.side_info(corner.horizontal_side()).start,
                        self.side_info(corner.vertical_side()).start as int,
                    )
                } else {
                    before
                },
                None => before,
            }
        }
    }

    /// `list` is what the debug mode hands out of the crops: the first frame
    /// of every corner that was cut, each under its name, and after them
    /// the sheet of them all.
    pub open spec fn debug_listed(self, corners: CornerPayload, list: Seq<NamedIcon>) -> bool {
        &&& list.len() == debug_names(corners, 20).len() + 1
        &&& forall|at: int|
            0 <= at < list.len() - 1 ==> {
                let named = #[trigger] list[at];
                &&& named.path_hint is Some
                &&& named.path_hint->Some_0@ == "DEBUGOUT/CORNERS/"@
                &&& named.name_hint is Some
                &&& named.name_hint->Some_0@ == debug_names(corners, 20)[at].0
                &&& named.image is Png
                &&& image_rows(named.image->Png_0) == debug_names(corners, 20)[at].1
            }
        &&& list.last().path_hint is Some
        &&& list.last().path_hint->Some_0@ == "DEBUGOUT"@
        &&& list.last().name_hint is Some
        &&& list.last().name_hint->Some_0@ == "ASSEMBLED-CORNERS"@
        &&& list.last().image is Png
        &&& image_rows(list.last().image->Png_0) == self.debug_sheet(corners, 20)
    }

    /// `list` is what the debug mode hands out of the crops of a sheet.
    pub open spec fn debug_given(self, rows: Seq<Seq<Color>>, list: Seq<NamedIcon>) -> bool {
        exists|corners: CornerPayload| #[trigger]
            self.corners_cut(rows, corners) && self.debug_listed(corners, list)
    }

    /// `list` is what the debug mode hands out before the icon: the crops
    /// of the sheet where it has a frame, nothing where it has none.
    pub open spec fn debug_part(self, rows: Seq<Seq<Color>>, list: Seq<NamedIcon>) -> bool {
        if self.frame_count(rows) > 0 {
            self.debug_canvas_fits() && self.debug_given(rows, list)
        } else {
            list.len() == 0
        }
    }

    /// The crops of a sheet with a frame can be laid out where the sheet
    /// of them can be held in memory.
    pub proof fn lemma_debug_ready(self, rows: Seq<Seq<Color>>, corners: CornerPayload, size: (u32, u32))
        requires
            self.sheet_ok(rows),
            self.corners_cut(rows, corners),
            has_size(rows, size.0 as int, size.1 as int),
            self.frame_count(rows) > 0,
            self.debug_canvas_fits(),
        ensures
            self.debug_ready(corners),
            debug_names(corners, 20).len() == 4 * self.used_types(),
    {
        assert(corners.set(CornerType::Convex) is Some);
        assert(corners.set(CornerType::Concave) is Some);
        assert(corners.set(CornerType::Horizontal) is Some);
        assert(corners.set(CornerType::Vertical) is Some);
        assert(corners.set(CornerType::Flat) is Some <==> self.smooth_diagonally);
        assert(corners.count() == self.used_types());
        assert(rows.len() > 0) by {
            if rows.len() == 0 {
                assert(self.frame_count(rows) == 0);
            }
        }
        assert forall|corner_type: CornerType|
            (#[trigger] corners.set(corner_type)) is Some implies self.positions.column(
            corner_type,
        ) is Some && self.positions.column(corner_type)->Some_0 * self.icon_size.x + self.cut_pos.x
            <= u32::MAX by {
            assert(self.uses(corner_type));
            let column = self.positions.column(corner_type)->Some_0;
            assert(self.corner_fits(rows, column, Corner::NorthEast, 0));
            assert(rows[0].len() == size.0);
        }
        self.lemma_debug_names(rows, corners, 20);
    }

    /// Every corner of a type that was cut from a sheet with a frame has a
    /// first frame.
    pub proof fn lemma_debug_names(self, rows: Seq<Seq<Color>>, corners: CornerPayload, count: int)
        requires
            self.corners_cut(rows, corners),
            self.frame_count(rows) > 0,
            0 <= count <= 20,
        ensures
            debug_names(corners, count).len() == if count <= 4 * self.used_types() {
                count
            } else {
                4 * self.used_types()
            },
        decreases count,
    {
        if count > 0 {
            self.lemma_debug_names(rows, corners, count - 1);
            let corner_type = CornerType::diagonal_types()[(count - 1) / 4];
            let corner = Corner::all()[(count - 1) % 4];
            assert(corner_type.ordinal() == (count - 1) / 4);
            if self.uses(corner_type) {
                assert(corners.set(corner_type) is Some);
                assert(self.cut_for(
                    rows,
                    self.positions.column(corner_type)->Some_0,
                    corner,
                    self.frame_count(rows),
                    corners.set(corner_type)->Some_0.frames(corner),
                ));
            } else {
                assert(corners.set(corner_type) is None);
            }
        }
    }

    /// The first frame of every corner that was cut, each under a name of
    /// its own, and after them all of them laid out as a sheet, a tile for
    /// every corner type: the crops as the cutter sees them, for a look at
    /// what a configuration does. A corner without a frame gives nothing.
    #[must_use]
    pub fn generate_debug_icons(&self, corners: &CornerPayload) -> (out: Vec<NamedIcon>)
        requires
            self.debug_ready(*corners),
        ensures
            self.debug_listed(*corners, out@),
    {
        let mut out: Vec<NamedIcon> = Vec::new();
        let count = corners.len() as u32;
        let mut corners_image = blank_image(count * self.icon_size.x, self.icon_size.y);
        let types = CornerType::diagonal();
        let all = Corner::every();
        let mut index: usize = 0;
        while index < 20
            invariant
                index <= 20,
                types@ == CornerType::diagonal_types(),
                all@ == Corner::all(),
                self.debug_ready(*corners),
                image_is_rgba8(corners_image),
                image_rows(corners_image) == self.debug_sheet(*corners, index as int),
                out@.len() == debug_names(*corners, index as int).len(),
                forall|at: int|
                    0 <= at < out.len() ==> {
                        let named = #[trigger] out[at];
                        &&& named.path_hint is Some
                        &&& named.path_hint->Some_0@ == "DEBUGOUT/CORNERS/"@
                        &&& named.name_hint is Some
                        &&& named.name_hint->Some_0@ == debug_names(*corners, index as int)[at].0
                        &&& named.image is Png
                        &&& image_rows(named.image->Png_0) == debug_names(
                            *corners,
                            index as int,
                        )[at].1
                    },
            decreases 20 - index,
        {
            let corner_type = types[index / 4];
            let corner = all[index % 4];
            let ghost before = out@;
            match corners.get(corner_type) {
                Some(set) => {
                    let frames = set.get(corner);
                    if frames.len() > 0 {
                        let mut name = "CORNER-".to_owned();
                        name.append(corner_type.debug_text());
                        name.append("-");
                        name.append(corner.debug_text());
                        proof {
                            reveal_strlit("-");
                            assert(name@ =~= debug_name(corner_type, corner));
                        }
                        let frame = &frames[0];
                        out.push(
                            NamedIcon::new(
                                "DEBUGOUT/CORNERS/",
                                name.as_str(),
                                OutputImage::Png(copy_image(frame)),
                            ),
                        );
                        let position = match self.positions.get(corner_type) {
                            Some(position) => position,
                            None => 0,
                        };
                        let (horizontal, vertical) = corner.sides_of_corner();
                        let horizontal = self.get_side_info(horizontal);
                        let vertical = self.get_side_info(vertical);
                        let left = offset(position, self.icon_size.x, horizontal.start);
                        replace_image(&mut corners_image, frame, left as u32, vertical.start);
                    }
                },
                None => {},
            }
            proof {
                assert forall|at: int| 0 <= at < out.len() implies {
                    let named = #[trigger] out[at];
                    &&& named.path_hint is Some
                    &&& named.path_hint->Some_0@ == "DEBUGOUT/CORNERS/"@
                    &&& named.name_hint is Some
                    &&& named.name_hint->Some_0@ == debug_names(*corners, index + 1)[at].0
                    &&& named.image is Png
                    &&& image_rows(named.image->Png_0) == debug_names(*corners, index + 1)[at].1
                } by {
                    if at < before.len() {
                        assert(out[at] == before[at]);
                    }
                }
            }
            index += 1;
        }
        let ghost files = out@;
        out.push(NamedIcon::new("DEBUGOUT", "ASSEMBLED-CORNERS", OutputImage::Png(corners_image)));
        proof {
            assert forall|at: int| 0 <= at < out.len() - 1 implies {
                let named = #[trigger] out[at];
                &&& named.path_hint is Some
                &&& named.path_hint->Some_0@ == "DEBUGOUT/CORNERS/"@
                &&& named.name_hint is Some
                &&& named.name_hint->Some_0@ == debug_names(*corners, 20)[at].0
                &&& named.image is Png
                &&& image_rows(named.image->Png_0) == debug_names(*corners, 20)[at].1
            } by {
                assert(out[at] == files[at]);
            }
        }
        out
    }
}

/// The name of the crop of a corner in a type.
pub open spec fn debug_name(corner_type: CornerType, corner: Corner) -> Seq<char> {
    "CORNER-"@ + corner_type.debug_name() + seq!['-'] + corner.debug_name()
}

/// The names and the pixels of the first frames among the first `count`
/// corners: corner by corner within a type, and type by type.
pub open spec fn debug_names(corners: CornerPayload, count: int) -> Seq<(Seq<char>, Seq<Seq<Color>>)>
    decreases count,
{
    if count <= 0 {
        Seq::empty()
    } else {
        let before = debug_names(corners, count - 1);
        let corner_type = CornerType::diagonal_types()[(count - 1) / 4];
        let corner = Corner::all()[(count - 1) % 4];
        match corners.set(corner_type) {
            Some(set) => if set.frames(corner).len() > 0 {
                before.push((debug_name(corner_type, corner), image_rows(set.frames(corner)[0])))
            } else {
                before
            },
            None => before,
        }
    }
}

impl Default for BitmaskSlice {
    /// A sheet of 32 by 32 tiles, cut in the middle, with the corner types
    /// of cardinal smoothing in the first four columns; one direction, no
    /// animation, no literal tiles and no map icon.
    fn default() -> (config: BitmaskSlice)
        ensures
            config.output_name is None,
            !config.produce_dirs,
            !config.smooth_diagonally,
            config.icon_size == (IconSize { x: 32, y: 32 }),
            config.output_icon_pos == (OutputIconPosition { x: 0, y: 0 }),
            config.output_icon_size == (OutputIconSize { x: 32, y: 32 }),
            config.positions == (Positions {
                convex: Some(0),
                concave: Some(1),
                horizontal: Some(2),
                vertical: Some(3),
                flat: None,
            }),
            config.cut_pos == (CutPosition { x: 16, y: 16 }),
            config.animation is None,
            config.prefabs is None,
            config.prefab_overlays is None,
            config.map_icon is None,
    {
        BitmaskSlice {
            output_name: None,
            produce_dirs: false,
            smooth_diagonally: false,
            icon_size: IconSize::default(),
            output_icon_pos: OutputIconPosition::default(),
            output_icon_size: OutputIconSize::default(),
            positions: Positions::default(),
            cut_pos: CutPosition::default(),
            animation: None,
            prefabs: None,
            prefab_overlays: None,
            map_icon: None,
        }
    }
}

/// A literal tile takes the place of the corners: where the output is as
/// large as a tile and the tile is laid down at its corner, the tile of a
/// signature with a literal tile is the crop of that tile from the sheet,
/// pixel for pixel.
pub proof fn prefab_overrides_corners(
    config: BitmaskSlice,
    rows: Seq<Seq<Color>>,
    bits: u8,
    frame: int,
)
    requires
        prefab_column(config.prefabs, bits) is Some,
        config.output_icon_pos.x == 0 && config.output_icon_pos.y == 0,
        config.output_icon_size.x == config.icon_size.x,
        config.output_icon_size.y == config.icon_size.y,
    ensures
        config.tile(rows, bits, frame) == config.prefab_crop(
            rows,
            prefab_column(config.prefabs, bits)->Some_0,
            frame,
        ),
{
    let column = prefab_column(config.prefabs, bits)->Some_0;
    assert(config.tile(rows, bits, frame) =~~= config.prefab_crop(rows, column, frame));
}

/// A literal tile is handed out as it was cut: where the output is as large
/// as a tile and the tile is laid down at its corner, every frame of the
/// tile of a signature with a literal tile has the pixels of that frame of
/// the literal tile, whatever the corners hold.
pub proof fn prefab_frame_is_kept(
    config: BitmaskSlice,
    corners: CornerPayload,
    prefabs: PrefabPayload,
    num_frames: int,
    count: int,
    tiles: Seq<Vec<DynamicImage>>,
    bits: u8,
    frame: int,
)
    requires
        config.tiles_made(corners, prefabs, num_frames, count, tiles),
        bits < count,
        0 <= frame < num_frames,
        prefabs.frames_of(bits) is Some,
        has_size(
            image_rows(prefabs.frames_of(bits)->Some_0@[frame]),
            config.icon_size.x as int,
            config.icon_size.y as int,
        ),
        config.output_icon_pos.x == 0 && config.output_icon_pos.y == 0,
        config.output_icon_size.x == config.icon_size.x,
        config.output_icon_size.y == config.icon_size.y,
    ensures
        image_rows(tiles[bits as int][frame]) == image_rows(
            prefabs.frames_of(bits)->Some_0@[frame],
        ),
{
    let given = image_rows(prefabs.frames_of(bits)->Some_0@[frame]);
    assert(image_rows(tiles[bits as int][frame]) == config.assembled(
        corners,
        prefabs,
        (bits as int) as u8,
        frame,
    ));
    assert(config.literal(prefabs, bits, frame) =~~= given);
}

/// A signature with a literal tile reads no corner: two sets of corners give
/// the same frames for it.
pub proof fn prefab_reads_no_corner(
    config: BitmaskSlice,
    corners: CornerPayload,
    other_corners: CornerPayload,
    prefabs: PrefabPayload,
    num_frames: int,
    count: int,
    tiles: Seq<Vec<DynamicImage>>,
    other_tiles: Seq<Vec<DynamicImage>>,
    bits: u8,
    frame: int,
)
    requires
        config.tiles_made(corners, prefabs, num_frames, count, tiles),
        config.tiles_made(other_corners, prefabs, num_frames, count, other_tiles),
        bits < count,
        0 <= frame < num_frames,
        prefabs.frames_of(bits) is Some,
    ensures
        image_rows(tiles[bits as int][frame]) == image_rows(other_tiles[bits as int][frame]),
{
    assert(image_rows(tiles[bits as int][frame]) == config.assembled(
        corners,
        prefabs,
        (bits as int) as u8,
        frame,
    ));
    assert(image_rows(other_tiles[bits as int][frame]) == config.assembled(
        other_corners,
        prefabs,
        (bits as int) as u8,
        frame,
    ));
}

/// An icon has a state for every signature: sixteen where only the
/// cardinals are smoothed, 256 with the diagonals; and a state has a frame
/// of every direction for each frame of the sheet.
pub proof fn states_of_an_icon(config: BitmaskSlice, rows: Seq<Seq<Color>>, sheet: Seq<Seq<Color>>, icon: Icon)
    requires
        config.icon_made(rows, sheet, icon),
    ensures
        icon.states.len() >= 16,
        !config.smooth_diagonally && config.map_icon is None ==> icon.states.len() == 16,
        forall|signature: int|
            0 <= signature < config.possible_states() ==> (#[trigger] icon.states[signature]).name@
                == config.state_name(signature as nat) && icon.states[signature].frames
                == config.frame_count(rows) && icon.states[signature].dirs == if config.produce_dirs {
                4int
            } else {
                1
            },
{
    assert forall|signature: int| 0 <= signature < config.possible_states() implies (
    #[trigger] icon.states[signature]).name@ == config.state_name(signature as nat)
        && icon.states[signature].frames == config.frame_count(rows) && icon.states[signature].dirs
        == if config.produce_dirs {
        4int
    } else {
        1
    } by {
        assert(config.state_made(rows, signature, icon.states[signature]));
    }
}

/// A signature of cardinals alone gives no corner the flat shape.
pub proof fn lemma_cardinal_shapes(bits: u8, corner: Corner)
    ensures
        bits < 16 ==> Adjacency::of(bits).corner_type(corner) != CornerType::Flat,
{
    assert(bits < 16 ==> bits & 0x10 != 0x10 && bits & 0x20 != 0x20 && bits & 0x40 != 0x40 && bits
        & 0x80 != 0x80) by (bit_vector);
}

/// A turned signature is a signature of the same kind: one of cardinals
/// alone stays one.
pub proof fn lemma_turn_stays(bits: u8, direction: Adjacency, diagonal: bool)
    requires
        direction.is_cardinal(),
        diagonal || bits < 16,
    ensures
        diagonal || Adjacency::of(bits).turned(direction).bits < 16,
{
    if !diagonal {
        assert(bits < 16 ==> bits & 0xf0 == 0) by (bit_vector);
        turn_keeps_cardinals(Adjacency::of(bits), direction);
        let turned = Adjacency::of(bits).turned(direction).bits;
        assert(turned & 0xf0 == 0 ==> turned < 16) by (bit_vector);
    }
}

/// The column that is configured for the literal tile of a signature.
pub fn prefab_lookup(prefabs: &Option<Prefabs>, bits: u8) -> (column: Option<u32>)
    ensures
        column == prefab_column(*prefabs, bits),
{
    broadcast use vstd::std_specs::btree::group_btree_axioms;
    broadcast use vstd::laws_cmp::group_laws_cmp;

    match prefabs {
        Some(table) => {
            match table.0.get(&bits) {
                Some(column) => Some(*column),
                None => None,
            }
        },
        None => None,
    }
}

/// `base * stride + start`, which fits into 64 bits.
pub fn offset(base: u32, stride: u32, start: u32) -> (sum: u64)
    ensures
        sum == base * stride + start,
        sum <= 0xffff_ffff * 0xffff_ffff + 0xffff_ffff,
{
    assert(0 <= base * stride <= 0xffff_ffff * 0xffff_ffff) by (nonlinear_arith)
        requires
            0 <= base <= 0xffff_ffff,
            0 <= stride <= 0xffff_ffff,
    ;
    base as u64 * stride as u64 + start as u64
}

} // verus!
