use std::collections::BTreeMap;

use vstd::prelude::*;

use crate::util::corners::{CornerType, Side};

verus! {

/// The size of one tile of the source sheet, in pixels.
#[derive(Copy, Clone, Eq, PartialEq, Structural, Debug)]
pub struct IconSize {
    pub x: u32,
    pub y: u32,
}

impl Default for IconSize {
    fn default() -> (size: IconSize)
        ensures
            size == (IconSize { x: 32, y: 32 }),
    {
        IconSize { x: 32, y: 32 }
    }
}

/// Where the assembled tile is laid down on the output canvas.
#[derive(Copy, Clone, Eq, PartialEq, Structural, Debug)]
pub struct OutputIconPosition {
    pub x: u32,
    pub y: u32,
}

impl Default for OutputIconPosition {
    fn default() -> (position: OutputIconPosition)
        ensures
            position == (OutputIconPosition { x: 0, y: 0 }),
    {
        OutputIconPosition { x: 0, y: 0 }
    }
}

/// The size of the output canvas, in pixels.
#[derive(Copy, Clone, Eq, PartialEq, Structural, Debug)]
pub struct OutputIconSize {
    pub x: u32,
    pub y: u32,
}

impl Default for OutputIconSize {
    fn default() -> (size: OutputIconSize)
        ensures
            size == (OutputIconSize { x: 32, y: 32 }),
    {
        OutputIconSize { x: 32, y: 32 }
    }
}

/// The pixel on each axis at which a tile is cut into its two sides.
#[derive(Copy, Clone, Eq, PartialEq, Structural, Debug)]
pub struct CutPosition {
    pub x: u32,
    pub y: u32,
}

impl Default for CutPosition {
    fn default() -> (cut: CutPosition)
        ensures
            cut == (CutPosition { x: 16, y: 16 }),
    {
        CutPosition { x: 16, y: 16 }
    }
}

/// The column of the source sheet that holds the art of each corner type.
#[derive(Copy, Clone, Eq, PartialEq, Structural, Debug)]
pub struct Positions {
    pub convex: Option<u32>,
    pub concave: Option<u32>,
    pub horizontal: Option<u32>,
    pub vertical: Option<u32>,
    pub flat: Option<u32>,
}

impl Positions {
    /// The column of a corner type, where one is configured.
    pub open spec fn column(self, key: CornerType) -> Option<u32> {
        match key {
            CornerType::Convex => self.convex,
            CornerType::Concave => self.concave,
            CornerType::Horizontal => self.horizontal,
            CornerType::Vertical => self.vertical,
            CornerType::Flat => self.flat,
        }
    }

    /// No column is configured.
    #[must_use]
    pub fn new() -> (positions: Positions)
        ensures
            forall|key: CornerType| positions.column(key) is None,
    {
        Positions { convex: None, concave: None, horizontal: None, vertical: None, flat: None }
    }

    #[must_use]
    pub fn get(&self, key: CornerType) -> (column: Option<u32>)
        ensures
            column == self.column(key),
    {
        match key {
            CornerType::Convex => self.convex,
            CornerType::Concave => self.concave,
            CornerType::Horizontal => self.horizontal,
            CornerType::Vertical => self.vertical,
            CornerType::Flat => self.flat,
        }
    }

    /// Sets the column of a corner type and hands back the one it had.
    pub fn insert(&mut self, key: CornerType, value: u32) -> (before: Option<u32>)
        ensures
            before == old(self).column(key),
            final(self).column(key) == Some(value),
            forall|other: CornerType| other != key ==> final(self).column(other) == old(self).column(other),
    {
        let before = self.get(key);
        match key {
            CornerType::Convex => {
                self.convex = Some(value);
            },
            CornerType::Concave => {
                self.concave = Some(value);
            },
            CornerType::Horizontal => {
                self.horizontal = Some(value);
            },
            CornerType::Vertical => {
                self.vertical = Some(value);
            },
            CornerType::Flat => {
                self.flat = Some(value);
            },
        }
        before
    }

    /// How many corner types have a column.
    pub open spec fn count(self) -> int {
        (if self.convex is Some { 1int } else { 0 }) + (if self.concave is Some { 1int } else { 0 }) + (if self.horizontal is Some { 1int } else { 0 }) + (if self.vertical is Some { 1int } else { 0 }) + (if self.flat is Some { 1int } else { 0 })
    }
}

impl Default for Positions {
    /// The four corner types of cardinal smoothing in the first four
    /// columns; none for `Flat`.
    fn default() -> (positions: Positions)
        ensures
            positions == (Positions {
                convex: Some(0),
                concave: Some(1),
                horizontal: Some(2),
                vertical: Some(3),
                flat: None,
            }),
    {
        Positions {
            convex: Some(0),
            concave: Some(1),
            horizontal: Some(2),
            vertical: Some(3),
            flat: None,
        }
    }
}

/// The first value under `key` among the entries.
pub open spec fn first_value(entries: Seq<(String, String)>, key: Seq<char>) -> Option<String>
    decreases entries.len(),
{
    if entries.len() == 0 {
        None
    } else if entries[0].0@ == key {
        Some(entries[0].1)
    } else {
        first_value(entries.drop_first(), key)
    }
}

/// Texts keyed by texts, in the order in which they were given. Where a key
/// stands twice the first entry counts.
#[derive(Clone, Eq, PartialEq, Debug)]
pub struct StringMap(pub Vec<(String, String)>);

impl StringMap {
    /// The value under `key`.
    pub open spec fn value(self, key: Seq<char>) -> Option<String> {
        first_value(self.0@, key)
    }

    #[must_use]
    pub fn get(&self, key: &str) -> (value: Option<&String>)
        ensures
            match value {
                Some(found) => self.value(key@) == Some(*found),
                None => self.value(key@) is None,
            },
    {
        let wanted = key.to_owned();
        let mut index: usize = 0;
        assert(self.0@.skip(0) =~= self.0@);
        while index < self.0.len()
            invariant
                index <= self.0.len(),
                wanted@ == key@,
                first_value(self.0@, key@) == first_value(self.0@.skip(index as int), key@),
            decreases self.0.len() - index,
        {
            assert(self.0@.skip(index as int).drop_first() =~= self.0@.skip(index + 1));
            if self.0[index].0 == wanted {
                return Some(&self.0[index].1);
            }
            index += 1;
        }
        None
    }
}

impl Default for StringMap {
    fn default() -> (map: StringMap)
        ensures
            map.0@.len() == 0,
    {
        StringMap(Vec::new())
    }
}

/// Literal tiles: the column of the source sheet that holds the whole tile
/// of a signature, keyed by the bits of the signature.
#[derive(Clone, Eq, PartialEq, Debug)]
pub struct Prefabs(pub BTreeMap<u8, u32>);

impl Default for Prefabs {
    fn default() -> (prefabs: Prefabs)
        ensures
            prefabs.0@ == Map::<u8, u32>::empty(),
    {
        Prefabs(BTreeMap::new())
    }
}

/// Columns to lay over the literal tile of a signature.
#[derive(Clone, Eq, PartialEq, Debug)]
pub struct PrefabOverlays(pub BTreeMap<u8, Vec<u32>>);

impl Default for PrefabOverlays {
    fn default() -> (overlays: PrefabOverlays)
        ensures
            overlays.0@ == Map::<u8, Vec<u32>>::empty(),
    {
        PrefabOverlays(BTreeMap::new())
    }
}

/// How long a frame of an animation is shown, in tenths of a second. The
/// number is a single-precision real, held here by its bits.
#[derive(Copy, Clone, Eq, PartialEq, Structural, Debug)]
pub struct Delay {
    pub bits: u32,
}

/// The delays of an animation, frame by frame.
#[derive(Clone, Eq, PartialEq, Debug)]
pub struct Animation {
    pub delays: Vec<Delay>,
}

impl Default for Animation {
    fn default() -> (animation: Animation)
        ensures
            animation.delays@.len() == 0,
    {
        Animation { delays: Vec::new() }
    }
}

/// The pixel at which each side is cut off for the views from one
/// direction.
#[derive(Copy, Clone, Eq, PartialEq, Structural, Debug)]
pub struct SlicePoint {
    pub north: Option<u32>,
    pub south: Option<u32>,
    pub east: Option<u32>,
    pub west: Option<u32>,
}

impl SlicePoint {
    /// The cut of a side, where one is configured.
    pub open spec fn cut(self, key: Side) -> Option<u32> {
        match key {
            Side::North => self.north,
            Side::South => self.south,
            Side::East => self.east,
            Side::West => self.west,
        }
    }

    #[must_use]
    pub fn get(&self, key: Side) -> (cut: Option<u32>)
        ensures
            cut == self.cut(key),
    {
        match key {
            Side::North => self.north,
            Side::South => self.south,
            Side::East => self.east,
            Side::West => self.west,
        }
    }
}

impl Default for SlicePoint {
    fn default() -> (point: SlicePoint)
        ensures
            point == (SlicePoint {
                north: Some(16),
                south: Some(16),
                east: Some(28),
                west: Some(4),
            }),
    {
        SlicePoint { north: Some(16), south: Some(16), east: Some(28), west: Some(4) }
    }
}

} // verus!
