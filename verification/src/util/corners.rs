use vstd::prelude::*;

verus! {

/// One side of a tile. North points up on an unrotated tile.
#[derive(Clone, Copy, PartialEq, Eq, Structural, Hash, PartialOrd, Ord, Debug)]
pub enum Side {
    North,
    South,
    East,
    West,
}

impl Side {
    /// The bit that the game engine uses for this direction.
    pub open spec fn dir_bits(self) -> u8 {
        match self {
            Side::North => 0b0000_0001u8,
            Side::South => 0b0000_0010u8,
            Side::East => 0b0000_0100u8,
            Side::West => 0b0000_1000u8,
        }
    }

    /// The four sides in the order in which the engine lists directions:
    /// south comes before north.
    pub open spec fn engine_order() -> Seq<Side> {
        seq![Side::South, Side::North, Side::East, Side::West]
    }

    /// Matches a side to the engine's direction bit.
    #[must_use]
    pub fn byond_dir(&self) -> (bits: u8)
        ensures
            bits == self.dir_bits(),
    {
        match self {
            Side::North => 0b0000_0001,
            Side::South => 0b0000_0010,
            Side::East => 0b0000_0100,
            Side::West => 0b0000_1000,
        }
    }

    /// The sides in the order in which the engine expects directions.
    #[must_use]
    pub fn dmi_cardinals() -> (sides: [Side; 4])
        ensures
            sides@ == Side::engine_order(),
    {
        let sides = [Side::South, Side::North, Side::East, Side::West];
        assert(sides@ =~= Side::engine_order());
        sides
    }

    /// North and south lie on the vertical axis, east and west do not.
    #[must_use]
    pub fn is_vertical(self) -> (vertical: bool)
        ensures
            vertical <==> (self == Side::North || self == Side::South),
    {
        match self {
            Side::North | Side::South => true,
            Side::East | Side::West => false,
        }
    }

    /// The lower-case name of the side, as configuration documents spell it.
    pub open spec fn name(self) -> Seq<char> {
        match self {
            Side::North => "north"@,
            Side::South => "south"@,
            Side::East => "east"@,
            Side::West => "west"@,
        }
    }

    /// The side of a name, where the text is the name of one.
    pub fn from_text(text: &str) -> (side: Option<Side>)
        ensures
            match side {
                Some(found) => text@ == found.name(),
                None => forall|any: Side| text@ != any.name(),
            },
    {
        let name = text.to_owned();
        if name == "north".to_owned() {
            Some(Side::North)
        } else if name == "south".to_owned() {
            Some(Side::South)
        } else if name == "east".to_owned() {
            Some(Side::East)
        } else if name == "west".to_owned() {
            Some(Side::West)
        } else {
            None
        }
    }

    /// The side's name as text.
    pub fn to_text(&self) -> (text: String)
        ensures
            text@ == self.name(),
    {
        match self {
            Side::North => "north".to_string(),
            Side::South => "south".to_string(),
            Side::East => "east".to_string(),
            Side::West => "west".to_string(),
        }
    }
}

/// One corner of a tile.
#[derive(Clone, Copy, PartialEq, Eq, Structural, Hash, PartialOrd, Ord, Debug)]
pub enum Corner {
    NorthEast,
    SouthEast,
    SouthWest,
    NorthWest,
}

impl Corner {
    /// The side on the east-west axis that bounds the corner.
    pub open spec fn horizontal_side(self) -> Side {
        match self {
            Corner::NorthEast | Corner::SouthEast => Side::East,
            Corner::SouthWest | Corner::NorthWest => Side::West,
        }
    }

    /// The side on the north-south axis that bounds the corner.
    pub open spec fn vertical_side(self) -> Side {
        match self {
            Corner::NorthEast | Corner::NorthWest => Side::North,
            Corner::SouthEast | Corner::SouthWest => Side::South,
        }
    }

    /// The four corners, clockwise from the north-east.
    pub open spec fn all() -> Seq<Corner> {
        seq![Corner::NorthEast, Corner::SouthEast, Corner::SouthWest, Corner::NorthWest]
    }

    /// The position of the corner in `Corner::all()`.
    pub open spec fn ordinal(self) -> int {
        match self {
            Corner::NorthEast => 0,
            Corner::SouthEast => 1,
            Corner::SouthWest => 2,
            Corner::NorthWest => 3,
        }
    }

    /// The two sides that make up the corner, horizontal side first.
    #[must_use]
    pub fn sides_of_corner(self) -> (sides: (Side, Side))
        ensures
            sides.0 == self.horizontal_side(),
            sides.1 == self.vertical_side(),
    {
        match self {
            Corner::NorthEast => (Side::East, Side::North),
            Corner::SouthEast => (Side::East, Side::South),
            Corner::SouthWest => (Side::West, Side::South),
            Corner::NorthWest => (Side::West, Side::North),
        }
    }

    /// The engine's direction bits of the corner: those of its two sides.
    #[must_use]
    pub fn byond_dir(self) -> (bits: u8)
        ensures
            bits == self.horizontal_side().dir_bits() | self.vertical_side().dir_bits(),
    {
        let (horizontal, vertical) = self.sides_of_corner();
        horizontal.byond_dir() | vertical.byond_dir()
    }

    /// The name of the corner as it is spelt in the code.
    pub open spec fn debug_name(self) -> Seq<char> {
        match self {
            Corner::NorthEast => "NorthEast"@,
            Corner::SouthEast => "SouthEast"@,
            Corner::SouthWest => "SouthWest"@,
            Corner::NorthWest => "NorthWest"@,
        }
    }

    /// The name of the corner as it is spelt in the code.
    pub fn debug_text(&self) -> (text: &'static str)
        ensures
            text@ == self.debug_name(),
    {
        match self {
            Corner::NorthEast => "NorthEast",
            Corner::SouthEast => "SouthEast",
            Corner::SouthWest => "SouthWest",
            Corner::NorthWest => "NorthWest",
        }
    }

    /// The corners in their fixed order.
    #[must_use]
    pub fn every() -> (corners: [Corner; 4])
        ensures
            corners@ == Corner::all(),
    {
        let corners = [Corner::NorthEast, Corner::SouthEast, Corner::SouthWest, Corner::NorthWest];
        assert(corners@ =~= Corner::all());
        corners
    }
}

/// The five shapes a corner can take under bitmask smoothing.
#[derive(Clone, Copy, PartialEq, Eq, Structural, Hash, PartialOrd, Ord, Debug)]
pub enum CornerType {
    Convex,
    Concave,
    Horizontal,
    Vertical,
    Flat,
}

impl CornerType {
    /// The corner types of cardinal-only smoothing: all but `Flat`.
    pub open spec fn cardinal_types() -> Seq<CornerType> {
        seq![CornerType::Convex, CornerType::Concave, CornerType::Horizontal, CornerType::Vertical]
    }

    /// All five corner types.
    pub open spec fn diagonal_types() -> Seq<CornerType> {
        seq![
            CornerType::Convex,
            CornerType::Concave,
            CornerType::Horizontal,
            CornerType::Vertical,
            CornerType::Flat,
        ]
    }

    /// The position of the type in `CornerType::diagonal_types()`.
    pub open spec fn ordinal(self) -> int {
        match self {
            CornerType::Convex => 0,
            CornerType::Concave => 1,
            CornerType::Horizontal => 2,
            CornerType::Vertical => 3,
            CornerType::Flat => 4,
        }
    }

    /// The lower-case name of the type, as configuration documents spell it.
    pub open spec fn name(self) -> Seq<char> {
        match self {
            CornerType::Convex => "convex"@,
            CornerType::Concave => "concave"@,
            CornerType::Horizontal => "horizontal"@,
            CornerType::Vertical => "vertical"@,
            CornerType::Flat => "flat"@,
        }
    }

    /// The name of the type as it is spelt in the code.
    pub open spec fn debug_name(self) -> Seq<char> {
        match self {
            CornerType::Convex => "Convex"@,
            CornerType::Concave => "Concave"@,
            CornerType::Horizontal => "Horizontal"@,
            CornerType::Vertical => "Vertical"@,
            CornerType::Flat => "Flat"@,
        }
    }

    /// The name of the type as it is spelt in the code.
    pub fn debug_text(&self) -> (text: &'static str)
        ensures
            text@ == self.debug_name(),
    {
        match self {
            CornerType::Convex => "Convex",
            CornerType::Concave => "Concave",
            CornerType::Horizontal => "Horizontal",
            CornerType::Vertical => "Vertical",
            CornerType::Flat => "Flat",
        }
    }

    /// The corner types used when only cardinal neighbours are sensed.
    #[must_use]
    pub fn cardinal() -> (types: Vec<CornerType>)
        ensures
            types@ == CornerType::cardinal_types(),
    {
        let types = vec![
            CornerType::Convex,
            CornerType::Concave,
            CornerType::Horizontal,
            CornerType::Vertical,
        ];
        assert(types@ =~= CornerType::cardinal_types());
        types
    }

    /// Every corner type, for smoothing that senses diagonal neighbours too.
    #[must_use]
    pub fn diagonal() -> (types: Vec<CornerType>)
        ensures
            types@ == CornerType::diagonal_types(),
    {
        let types = vec![
            CornerType::Convex,
            CornerType::Concave,
            CornerType::Horizontal,
            CornerType::Vertical,
            CornerType::Flat,
        ];
        assert(types@ =~= CornerType::diagonal_types());
        types
    }

    /// The corner type of a name, where the text is the name of one.
    pub fn from_text(text: &str) -> (corner_type: Option<CornerType>)
        ensures
            match corner_type {
                Some(found) => text@ == found.name(),
                None => forall|any: CornerType| text@ != any.name(),
            },
    {
        let name = text.to_owned();
        if name == "convex".to_owned() {
            Some(CornerType::Convex)
        } else if name == "concave".to_owned() {
            Some(CornerType::Concave)
        } else if name == "horizontal".to_owned() {
            Some(CornerType::Horizontal)
        } else if name == "vertical".to_owned() {
            Some(CornerType::Vertical)
        } else if name == "flat".to_owned() {
            Some(CornerType::Flat)
        } else {
            None
        }
    }

    /// The type's name as text.
    pub fn to_text(&self) -> (text: String)
        ensures
            text@ == self.name(),
    {
        match self {
            CornerType::Convex => "convex".to_string(),
            CornerType::Concave => "concave".to_string(),
            CornerType::Horizontal => "horizontal".to_string(),
            CornerType::Vertical => "vertical".to_string(),
            CornerType::Flat => "flat".to_string(),
        }
    }
}

} // verus!
