use vstd::prelude::*;

use crate::util::corners::{Corner, CornerType, Side};

verus! {

/// A set of neighbour directions, one bit for each of the eight neighbours
/// of a tile. The bits are independent: no flag implies another, and every
/// bit pattern is a value.
#[derive(Clone, Copy, PartialEq, Eq, Structural, Hash, PartialOrd, Ord, Debug)]
pub struct Adjacency {
    pub bits: u8,
}

/// The turn that brings the south-facing icon to face `direction`, as the
/// images of the eight single flags in the order N, S, E, W, NE, SE, SW, NW.
/// Facing south needs no turn, north is a half turn, east a quarter turn
/// counter-clockwise and west a quarter turn clockwise. The table is a
/// permutation of all eight flags, so that the laws of turning can be stated
/// of every set; the executable functions turn cardinal neighbours only.
pub open spec fn turn_table(direction: u8) -> (u8, u8, u8, u8, u8, u8, u8, u8) {
    if direction == Adjacency::N {
        (0x02u8, 0x01u8, 0x08u8, 0x04u8, 0x40u8, 0x80u8, 0x10u8, 0x20u8)
    } else if direction == Adjacency::E {
        (0x08u8, 0x04u8, 0x01u8, 0x02u8, 0x80u8, 0x10u8, 0x20u8, 0x40u8)
    } else if direction == Adjacency::W {
        (0x04u8, 0x08u8, 0x02u8, 0x01u8, 0x20u8, 0x40u8, 0x80u8, 0x10u8)
    } else {
        (0x01u8, 0x02u8, 0x04u8, 0x08u8, 0x10u8, 0x20u8, 0x40u8, 0x80u8)
    }
}

/// `image` if `bits` holds the flag `mask`, nothing otherwise.
pub open spec fn moved(bits: u8, mask: u8, image: u8) -> u8 {
    if bits & mask == mask {
        image
    } else {
        0u8
    }
}

/// The bit pattern whose flags are the images, under `table`, of the flags
/// of `bits`.
pub open spec fn permuted(bits: u8, table: (u8, u8, u8, u8, u8, u8, u8, u8)) -> u8 {
    moved(bits, 0x01, table.0) | moved(bits, 0x02, table.1) | moved(bits, 0x04, table.2) | moved(
        bits,
        0x08,
        table.3,
    ) | moved(bits, 0x10, table.4) | moved(bits, 0x20, table.5) | moved(bits, 0x40, table.6)
        | moved(bits, 0x80, table.7)
}

/// The image of the `index`-th single flag under `table`.
pub open spec fn table_entry(table: (u8, u8, u8, u8, u8, u8, u8, u8), index: int) -> u8 {
    if index == 0 {
        table.0
    } else if index == 1 {
        table.1
    } else if index == 2 {
        table.2
    } else if index == 3 {
        table.3
    } else if index == 4 {
        table.4
    } else if index == 5 {
        table.5
    } else if index == 6 {
        table.6
    } else {
        table.7
    }
}

impl Adjacency {
    pub const N: u8 = 0b0000_0001;

    pub const S: u8 = 0b0000_0010;

    pub const E: u8 = 0b0000_0100;

    pub const W: u8 = 0b0000_1000;

    pub const NE: u8 = 0b0001_0000;

    pub const SE: u8 = 0b0010_0000;

    pub const SW: u8 = 0b0100_0000;

    pub const NW: u8 = 0b1000_0000;

    pub const N_S: u8 = 0b0000_0011;

    pub const E_W: u8 = 0b0000_1100;

    pub const CARDINALS: u8 = 0b0000_1111;

    pub const DIAGONALS: u8 = 0b1111_0000;

    /// The set with exactly the flags of `bits`.
    pub open spec fn of(bits: u8) -> Adjacency {
        Adjacency { bits }
    }

    /// Whether every flag of `other` is in `self`.
    pub open spec fn has(self, other: Adjacency) -> bool {
        self.bits & other.bits == other.bits
    }

    /// Whether `self` holds cardinal neighbours only.
    pub open spec fn only_cardinals(self) -> bool {
        self.bits & Adjacency::DIAGONALS == 0
    }

    /// Whether `self` is one of the eight single directions.
    pub open spec fn is_single(self) -> bool {
        ||| self.bits == Adjacency::N
        ||| self.bits == Adjacency::S
        ||| self.bits == Adjacency::E
        ||| self.bits == Adjacency::W
        ||| self.bits == Adjacency::NE
        ||| self.bits == Adjacency::SE
        ||| self.bits == Adjacency::SW
        ||| self.bits == Adjacency::NW
    }

    /// Whether `self` is one of the four single cardinal directions.
    pub open spec fn is_cardinal(self) -> bool {
        ||| self.bits == Adjacency::N
        ||| self.bits == Adjacency::S
        ||| self.bits == Adjacency::E
        ||| self.bits == Adjacency::W
    }

    /// Whether `self` is one of the four single diagonal directions.
    pub open spec fn is_diagonal(self) -> bool {
        ||| self.bits == Adjacency::NE
        ||| self.bits == Adjacency::SE
        ||| self.bits == Adjacency::SW
        ||| self.bits == Adjacency::NW
    }

    /// The eight single flags, cardinals first.
    pub open spec fn single_flags() -> Seq<Adjacency> {
        seq![
            Adjacency::of(Adjacency::N),
            Adjacency::of(Adjacency::S),
            Adjacency::of(Adjacency::E),
            Adjacency::of(Adjacency::W),
            Adjacency::of(Adjacency::NE),
            Adjacency::of(Adjacency::SE),
            Adjacency::of(Adjacency::SW),
            Adjacency::of(Adjacency::NW),
        ]
    }

    /// The diagonal flag of a corner.
    pub open spec fn corner_flag(corner: Corner) -> Adjacency {
        match corner {
            Corner::NorthEast => Adjacency::of(Adjacency::NE),
            Corner::SouthEast => Adjacency::of(Adjacency::SE),
            Corner::SouthWest => Adjacency::of(Adjacency::SW),
            Corner::NorthWest => Adjacency::of(Adjacency::NW),
        }
    }

    /// The cardinal flag of a side.
    pub open spec fn side_flag(side: Side) -> Adjacency {
        match side {
            Side::North => Adjacency::of(Adjacency::N),
            Side::South => Adjacency::of(Adjacency::S),
            Side::East => Adjacency::of(Adjacency::E),
            Side::West => Adjacency::of(Adjacency::W),
        }
    }

    /// The cardinal on the north-south axis that bounds a diagonal.
    pub open spec fn vertical_of(self) -> Adjacency {
        if self.bits == Adjacency::NE || self.bits == Adjacency::NW {
            Adjacency::of(Adjacency::N)
        } else {
            Adjacency::of(Adjacency::S)
        }
    }

    /// The cardinal on the east-west axis that bounds a diagonal.
    pub open spec fn horizontal_of(self) -> Adjacency {
        if self.bits == Adjacency::NE || self.bits == Adjacency::SE {
            Adjacency::of(Adjacency::E)
        } else {
            Adjacency::of(Adjacency::W)
        }
    }

    /// Whether both cardinals that bound the diagonal `corner` are in `self`.
    pub open spec fn bounded(self, corner: Adjacency) -> bool {
        self.has(corner.vertical_of()) && self.has(corner.horizontal_of())
    }

    /// Whether each diagonal flag of `self` comes with both cardinals that
    /// bound it.
    pub open spec fn no_orphan(self) -> bool {
        forall|corner: Corner| #[trigger]
            self.has(Adjacency::corner_flag(corner)) ==> self.bounded(
                Adjacency::corner_flag(corner),
            )
    }

    /// The shape of `corner` on a tile whose neighbours are `self`.
    pub open spec fn corner_type(self, corner: Corner) -> CornerType {
        let diagonal = Adjacency::corner_flag(corner);
        let vertical = self.has(diagonal.vertical_of());
        let horizontal = self.has(diagonal.horizontal_of());
        if vertical && horizontal {
            if self.has(diagonal) {
                CornerType::Flat
            } else {
                CornerType::Concave
            }
        } else if vertical {
            CornerType::Vertical
        } else if horizontal {
            CornerType::Horizontal
        } else {
            CornerType::Convex
        }
    }

    /// The single flags of `self` among the first `count` of
    /// `single_flags()`, in that order.
    pub open spec fn flags_within(self, count: nat) -> Seq<Adjacency>
        decreases count,
    {
        if count == 0 {
            Seq::empty()
        } else {
            let flag = Adjacency::single_flags()[count - 1];
            let before = self.flags_within((count - 1) as nat);
            if self.has(flag) {
                before.push(flag)
            } else {
                before
            }
        }
    }

    /// The single flags that `self` is made of, cardinals first.
    pub open spec fn set_flags(self) -> Seq<Adjacency> {
        self.flags_within(8)
    }

    /// Where the turn towards `direction` takes the neighbours `self`: each
    /// flag moves to its image, and the set is the union of the images.
    pub open spec fn turned(self, direction: Adjacency) -> Adjacency {
        Adjacency::of(permuted(self.bits, turn_table(direction.bits)))
    }

    /// The direction whose turn undoes the turn towards `self`: the half
    /// turn and no turn undo themselves, the quarter turns undo each other.
    pub open spec fn counter_turn(self) -> Adjacency {
        if self.bits == Adjacency::E {
            Adjacency::of(Adjacency::W)
        } else if self.bits == Adjacency::W {
            Adjacency::of(Adjacency::E)
        } else {
            self
        }
    }

    /// The cardinal direction that faces `self`.
    pub open spec fn opposite(self) -> Adjacency {
        if self.bits == Adjacency::N {
            Adjacency::of(Adjacency::S)
        } else if self.bits == Adjacency::S {
            Adjacency::of(Adjacency::N)
        } else if self.bits == Adjacency::E {
            Adjacency::of(Adjacency::W)
        } else {
            Adjacency::of(Adjacency::E)
        }
    }

    /// The set with no neighbour.
    #[must_use]
    pub fn empty() -> (none: Adjacency)
        ensures
            none.bits == 0,
    {
        Adjacency { bits: 0 }
    }

    /// The set with all eight neighbours.
    #[must_use]
    pub fn all() -> (every: Adjacency)
        ensures
            every.bits == 0xff,
    {
        Adjacency { bits: 0xff }
    }

    /// The set with the flags of `bits`. Every bit is a direction, so every
    /// pattern is accepted.
    #[must_use]
    pub fn from_bits(bits: u8) -> (set: Option<Adjacency>)
        ensures
            set == Some(Adjacency::of(bits)),
    {
        Some(Adjacency { bits })
    }

    /// The bit pattern of the set.
    #[must_use]
    pub fn bits(&self) -> (bits: u8)
        ensures
            bits == self.bits,
    {
        self.bits
    }

    /// Whether the set has no neighbour.
    #[must_use]
    pub fn is_empty(&self) -> (none: bool)
        ensures
            none <==> self.bits == 0,
    {
        self.bits == 0
    }

    /// Whether every flag of `other` is in `self`.
    #[must_use]
    pub fn contains(&self, other: Adjacency) -> (held: bool)
        ensures
            held == self.has(other),
    {
        self.bits & other.bits == other.bits
    }

    /// The flags of either set.
    #[must_use]
    pub fn union(self, other: Adjacency) -> (both: Adjacency)
        ensures
            both.bits == self.bits | other.bits,
    {
        Adjacency { bits: self.bits | other.bits }
    }

    /// The flags that the two sets share.
    #[must_use]
    pub fn intersection(self, other: Adjacency) -> (shared: Adjacency)
        ensures
            shared.bits == self.bits & other.bits,
    {
        Adjacency { bits: self.bits & other.bits }
    }

    /// The neighbour to the north.
    #[must_use]
    pub fn n() -> (flag: Adjacency)
        ensures
            flag.bits == Adjacency::N,
    {
        Adjacency { bits: Adjacency::N }
    }

    /// The neighbour to the south.
    #[must_use]
    pub fn s() -> (flag: Adjacency)
        ensures
            flag.bits == Adjacency::S,
    {
        Adjacency { bits: Adjacency::S }
    }

    /// The neighbour to the east.
    #[must_use]
    pub fn e() -> (flag: Adjacency)
        ensures
            flag.bits == Adjacency::E,
    {
        Adjacency { bits: Adjacency::E }
    }

    /// The neighbour to the west.
    #[must_use]
    pub fn w() -> (flag: Adjacency)
        ensures
            flag.bits == Adjacency::W,
    {
        Adjacency { bits: Adjacency::W }
    }

    /// The neighbour to the north-east.
    #[must_use]
    pub fn ne() -> (flag: Adjacency)
        ensures
            flag.bits == Adjacency::NE,
    {
        Adjacency { bits: Adjacency::NE }
    }

    /// The neighbour to the south-east.
    #[must_use]
    pub fn se() -> (flag: Adjacency)
        ensures
            flag.bits == Adjacency::SE,
    {
        Adjacency { bits: Adjacency::SE }
    }

    /// The neighbour to the south-west.
    #[must_use]
    pub fn sw() -> (flag: Adjacency)
        ensures
            flag.bits == Adjacency::SW,
    {
        Adjacency { bits: Adjacency::SW }
    }

    /// The neighbour to the north-west.
    #[must_use]
    pub fn nw() -> (flag: Adjacency)
        ensures
            flag.bits == Adjacency::NW,
    {
        Adjacency { bits: Adjacency::NW }
    }

    /// All four cardinal neighbours.
    #[must_use]
    pub fn cardinals() -> (flags: Adjacency)
        ensures
            flags.bits == Adjacency::CARDINALS,
    {
        Adjacency { bits: Adjacency::CARDINALS }
    }

    /// The cardinal directions in the order in which the engine lists them:
    /// south, north, east, west.
    #[must_use]
    pub fn dmi_cardinals() -> (directions: [Adjacency; 4])
        ensures
            directions@ == seq![
                Adjacency::of(Adjacency::S),
                Adjacency::of(Adjacency::N),
                Adjacency::of(Adjacency::E),
                Adjacency::of(Adjacency::W),
            ],
    {
        let directions = [Adjacency::s(), Adjacency::n(), Adjacency::e(), Adjacency::w()];
        assert(directions@ =~= seq![
            Adjacency::of(Adjacency::S),
            Adjacency::of(Adjacency::N),
            Adjacency::of(Adjacency::E),
            Adjacency::of(Adjacency::W),
        ]);
        directions
    }

    /// The four diagonal directions, clockwise from the north-east.
    #[must_use]
    pub fn diagonals() -> (directions: [Adjacency; 4])
        ensures
            directions@ == Corner::all().map_values(|c: Corner| Adjacency::corner_flag(c)),
    {
        let directions = [Adjacency::ne(), Adjacency::se(), Adjacency::sw(), Adjacency::nw()];
        assert(directions@ =~= Corner::all().map_values(|c: Corner| Adjacency::corner_flag(c)));
        directions
    }

    /// The two cardinals that bound a diagonal, the one on the north-south
    /// axis first.
    #[must_use]
    pub fn corner_sides(self) -> (sides: (Adjacency, Adjacency))
        requires
            self.is_diagonal(),
        ensures
            sides.0 == self.vertical_of(),
            sides.1 == self.horizontal_of(),
    {
        if self.bits == Adjacency::NE {
            (Adjacency::n(), Adjacency::e())
        } else if self.bits == Adjacency::SE {
            (Adjacency::s(), Adjacency::e())
        } else if self.bits == Adjacency::SW {
            (Adjacency::s(), Adjacency::w())
        } else {
            (Adjacency::n(), Adjacency::w())
        }
    }

    /// Whether both cardinals that bound the diagonal `corner` are present.
    #[must_use]
    pub fn adjacent_corners_filled(self, corner: Adjacency) -> (filled: bool)
        requires
            corner.is_diagonal(),
        ensures
            filled == self.bounded(corner),
    {
        let (first, second) = corner.corner_sides();
        self.contains(first) && self.contains(second)
    }

    /// Whether every diagonal neighbour in the set touches the tile through
    /// both of its cardinals. A diagonal without them is orphaned, and
    /// smoothing that senses diagonals through the cardinals never meets
    /// such a set.
    #[must_use]
    pub fn has_no_orphaned_corner(self) -> (sound: bool)
        ensures
            sound == self.no_orphan(),
    {
        let corners = Adjacency::diagonals();
        let mut index: usize = 0;
        while index < 4
            invariant
                index <= 4,
                corners@ == Corner::all().map_values(|c: Corner| Adjacency::corner_flag(c)),
                forall|c: Corner|
                    c.ordinal() < index && #[trigger] self.has(Adjacency::corner_flag(c))
                        ==> self.bounded(Adjacency::corner_flag(c)),
            decreases 4 - index,
        {
            let corner = corners[index];
            assert(corner == Adjacency::corner_flag(Corner::all()[index as int]));
            if self.contains(corner) && !self.adjacent_corners_filled(corner) {
                assert(Corner::all()[index as int].ordinal() == index);
                return false;
            }
            assert forall|c: Corner|
                c.ordinal() < index + 1 && #[trigger] self.has(
                    Adjacency::corner_flag(c),
                ) implies self.bounded(Adjacency::corner_flag(c)) by {
                if c.ordinal() == index {
                    assert(c == Corner::all()[index as int]);
                }
            }
            index += 1;
        }
        true
    }

    /// `has_no_orphaned_corner`, for callers that hold a reference.
    #[must_use]
    pub fn ref_has_no_orphaned_corner(&self) -> (sound: bool)
        ensures
            sound == self.no_orphan(),
    {
        self.has_no_orphaned_corner()
    }

    /// The diagonal flag of a corner.
    #[must_use]
    pub fn from_corner(corner: Corner) -> (flag: Adjacency)
        ensures
            flag == Adjacency::corner_flag(corner),
    {
        match corner {
            Corner::NorthEast => Adjacency::ne(),
            Corner::SouthEast => Adjacency::se(),
            Corner::SouthWest => Adjacency::sw(),
            Corner::NorthWest => Adjacency::nw(),
        }
    }

    /// The cardinal flag of a side.
    #[must_use]
    pub fn from_side(side: Side) -> (flag: Adjacency)
        ensures
            flag == Adjacency::side_flag(side),
    {
        match side {
            Side::North => Adjacency::n(),
            Side::South => Adjacency::s(),
            Side::East => Adjacency::e(),
            Side::West => Adjacency::w(),
        }
    }

    /// The single flags that the set is made of, cardinals first.
    #[must_use]
    pub fn set_flags_vec(self) -> (flags: Vec<Adjacency>)
        ensures
            flags@ == self.set_flags(),
    {
        let full = [
            Adjacency::n(),
            Adjacency::s(),
            Adjacency::e(),
            Adjacency::w(),
            Adjacency::ne(),
            Adjacency::se(),
            Adjacency::sw(),
            Adjacency::nw(),
        ];
        assert(full@ =~= Adjacency::single_flags());
        let mut flags: Vec<Adjacency> = Vec::new();
        let mut index: usize = 0;
        while index < 8
            invariant
                index <= 8,
                full@ == Adjacency::single_flags(),
                flags@ == self.flags_within(index as nat),
            decreases 8 - index,
        {
            if self.contains(full[index]) {
                flags.push(full[index]);
            }
            index += 1;
        }
        flags
    }

    /// The shape of `corner` given the neighbours in the set. Both bounding
    /// cardinals make the corner concave, or flat where the diagonal
    /// neighbour is there too; one cardinal alone makes an edge along it;
    /// none leaves the corner convex.
    #[must_use]
    pub fn get_corner_type(self, corner: Corner) -> (shape: CornerType)
        ensures
            shape == self.corner_type(corner),
            shape == CornerType::Flat <==> self.bounded(Adjacency::corner_flag(corner)) && self.has(
                Adjacency::corner_flag(corner),
            ),
    {
        let adj_corner = Adjacency::from_corner(corner);
        let (vertical, horizontal) = adj_corner.corner_sides();
        if self.contains(vertical) && self.contains(horizontal) {
            if self.contains(adj_corner) {
                CornerType::Flat
            } else {
                CornerType::Concave
            }
        } else if self.contains(vertical) {
            CornerType::Vertical
        } else if self.contains(horizontal) {
            CornerType::Horizontal
        } else {
            CornerType::Convex
        }
    }

    /// Where the turn towards `direction` takes a single cardinal
    /// neighbour. The turn towards the south leaves any set as it is. No
    /// other turn is defined for a diagonal neighbour.
    #[must_use]
    pub fn rotate_dir(self, direction: Adjacency) -> (image: Adjacency)
        requires
            direction.is_cardinal(),
            self.is_cardinal() || direction.bits == Adjacency::S,
        ensures
            image == self.turned(direction),
            self.is_cardinal() ==> image.is_cardinal(),
    {
        if direction.bits == Adjacency::S {
            proof {
                south_is_canonical(self);
            }
            return self;
        }
        proof {
            lemma_single_turn(self.bits, direction.bits);
        }
        let table: [u8; 4] = if direction.bits == Adjacency::N {
            [0x02, 0x01, 0x08, 0x04]
        } else if direction.bits == Adjacency::E {
            [0x08, 0x04, 0x01, 0x02]
        } else {
            [0x04, 0x08, 0x02, 0x01]
        };
        let slot: usize = if self.bits == Adjacency::N {
            0
        } else if self.bits == Adjacency::S {
            1
        } else if self.bits == Adjacency::E {
            2
        } else if self.bits == Adjacency::W {
            3
        } else {
            vstd::pervasive::unreached()
        };
        Adjacency { bits: table[slot] }
    }

    /// The neighbours of the icon that faces `direction`, given those of the
    /// south-facing icon: each neighbour is turned by itself and the results
    /// are united. No pixel is turned, only the choice of the signature. A
    /// set that holds a diagonal neighbour can only face south.
    #[must_use]
    pub fn rotate_to(self, direction: Adjacency) -> (image: Adjacency)
        requires
            direction.is_cardinal(),
            self.only_cardinals() || direction.bits == Adjacency::S,
        ensures
            image == self.turned(direction),
            self.only_cardinals() ==> image.only_cardinals(),
    {
        proof {
            if self.only_cardinals() {
                turn_keeps_cardinals(self, direction);
            }
        }
        if direction.bits == Adjacency::S {
            proof {
                south_is_canonical(self);
            }
            return self;
        }
        let flags = self.set_flags_vec();
        let mut bits: u8 = 0;
        let mut index: usize = 0;
        proof {
            lemma_flags_are_cardinal(self, 8);
        }
        while index < flags.len()
            invariant
                index <= flags.len(),
                direction.is_cardinal(),
                forall|i: int| 0 <= i < flags.len() ==> (#[trigger] flags[i]).is_cardinal(),
                bits == united_turns(flags@.take(index as int), direction),
            decreases flags.len() - index,
        {
            let turned = flags[index].rotate_dir(direction);
            proof {
                assert(flags@.take(index + 1).drop_last() =~= flags@.take(index as int));
            }
            bits = bits | turned.bits;
            index += 1;
        }
        proof {
            assert(flags@.take(index as int) =~= flags@);
            lemma_united_turns(self, direction, 8);
            lemma_permuted_unrolls(self.bits, turn_table(direction.bits));
        }
        Adjacency { bits }
    }
}

impl core::ops::BitOr for Adjacency {
    type Output = Adjacency;

    fn bitor(self, other: Adjacency) -> (both: Adjacency) {
        Adjacency { bits: self.bits | other.bits }
    }
}

impl vstd::std_specs::ops::BitOrSpecImpl for Adjacency {
    open spec fn obeys_bitor_spec() -> bool {
        true
    }

    open spec fn bitor_req(self, other: Adjacency) -> bool {
        true
    }

    open spec fn bitor_spec(self, other: Adjacency) -> Adjacency {
        Adjacency { bits: self.bits | other.bits }
    }
}

impl From<Corner> for Adjacency {
    fn from(corner: Corner) -> (flag: Adjacency) {
        Adjacency::from_corner(corner)
    }
}

impl vstd::std_specs::convert::FromSpecImpl<Corner> for Adjacency {
    open spec fn obeys_from_spec() -> bool {
        true
    }

    open spec fn from_spec(corner: Corner) -> Adjacency {
        Adjacency::corner_flag(corner)
    }
}

impl From<Side> for Adjacency {
    fn from(side: Side) -> (flag: Adjacency) {
        Adjacency::from_side(side)
    }
}

impl vstd::std_specs::convert::FromSpecImpl<Side> for Adjacency {
    open spec fn obeys_from_spec() -> bool {
        true
    }

    open spec fn from_spec(side: Side) -> Adjacency {
        Adjacency::side_flag(side)
    }
}

/// A corner is flat only where both cardinals that bound it and its own
/// diagonal are among the neighbours; with both cardinals and no diagonal it
/// is concave, with one cardinal an edge, with none convex.
pub proof fn corner_type_by_neighbours(set: Adjacency, corner: Corner)
    ensures
        set.corner_type(corner) == CornerType::Flat <==> set.bounded(Adjacency::corner_flag(corner))
            && set.has(Adjacency::corner_flag(corner)),
        set.corner_type(corner) == CornerType::Concave <==> set.bounded(
            Adjacency::corner_flag(corner),
        ) && !set.has(Adjacency::corner_flag(corner)),
        set.corner_type(corner) == CornerType::Vertical <==> set.has(
            Adjacency::corner_flag(corner).vertical_of(),
        ) && !set.has(Adjacency::corner_flag(corner).horizontal_of()),
        set.corner_type(corner) == CornerType::Horizontal <==> !set.has(
            Adjacency::corner_flag(corner).vertical_of(),
        ) && set.has(Adjacency::corner_flag(corner).horizontal_of()),
        set.corner_type(corner) == CornerType::Convex <==> !set.has(
            Adjacency::corner_flag(corner).vertical_of(),
        ) && !set.has(Adjacency::corner_flag(corner).horizontal_of()),
{
}

/// A set with a diagonal neighbour that lacks one of the two cardinals next
/// to it has an orphaned corner.
pub proof fn orphaned_diagonal_is_rejected(set: Adjacency, corner: Corner)
    requires
        set.has(Adjacency::corner_flag(corner)),
        !set.bounded(Adjacency::corner_flag(corner)),
    ensures
        !set.no_orphan(),
{
}

/// A set without diagonal neighbours has no orphaned corner.
pub proof fn cardinals_have_no_orphan(set: Adjacency)
    requires
        set.bits & Adjacency::DIAGONALS == 0,
    ensures
        set.no_orphan(),
{
    let bits = set.bits;
    assert(bits & 0xf0 == 0 ==> bits & 0x10 != 0x10 && bits & 0x20 != 0x20 && bits & 0x40 != 0x40
        && bits & 0x80 != 0x80) by (bit_vector);
}

/// Turning is undone by the counter turn: a half turn by a half turn, a
/// quarter turn by the quarter turn the other way.
pub proof fn rotation_is_invertible(set: Adjacency, direction: Adjacency)
    requires
        direction.is_cardinal(),
    ensures
        direction.counter_turn().is_cardinal(),
        set.turned(direction).turned(direction.counter_turn()) == set,
{
    let bits = set.bits;
    assert(permuted(
        permuted(bits, (0x02u8, 0x01u8, 0x08u8, 0x04u8, 0x40u8, 0x80u8, 0x10u8, 0x20u8)),
        (0x02u8, 0x01u8, 0x08u8, 0x04u8, 0x40u8, 0x80u8, 0x10u8, 0x20u8),
    ) == bits) by (bit_vector);
    assert(permuted(
        permuted(bits, (0x01u8, 0x02u8, 0x04u8, 0x08u8, 0x10u8, 0x20u8, 0x40u8, 0x80u8)),
        (0x01u8, 0x02u8, 0x04u8, 0x08u8, 0x10u8, 0x20u8, 0x40u8, 0x80u8),
    ) == bits) by (bit_vector);
    assert(permuted(
        permuted(bits, (0x08u8, 0x04u8, 0x01u8, 0x02u8, 0x80u8, 0x10u8, 0x20u8, 0x40u8)),
        (0x04u8, 0x08u8, 0x02u8, 0x01u8, 0x20u8, 0x40u8, 0x80u8, 0x10u8),
    ) == bits) by (bit_vector);
    assert(permuted(
        permuted(bits, (0x04u8, 0x08u8, 0x02u8, 0x01u8, 0x20u8, 0x40u8, 0x80u8, 0x10u8)),
        (0x08u8, 0x04u8, 0x01u8, 0x02u8, 0x80u8, 0x10u8, 0x20u8, 0x40u8),
    ) == bits) by (bit_vector);
}

/// Turning towards east and then towards the direction that faces it, west,
/// gives the neighbours back; so does west and then east.
pub proof fn quarter_turn_round_trip(set: Adjacency, direction: Adjacency)
    requires
        direction.bits == Adjacency::E || direction.bits == Adjacency::W,
    ensures
        set.turned(direction).turned(direction.opposite()) == set,
{
    rotation_is_invertible(set, direction);
}

/// Facing south is the icon as it was assembled: the turn changes nothing.
pub proof fn south_is_canonical(set: Adjacency)
    ensures
        set.turned(Adjacency::of(Adjacency::S)) == set,
{
    let bits = set.bits;
    assert(permuted(bits, (0x01u8, 0x02u8, 0x04u8, 0x08u8, 0x10u8, 0x20u8, 0x40u8, 0x80u8))
        == bits) by (bit_vector);
}

/// A turn moves cardinal neighbours to cardinals and diagonal ones to
/// diagonals: a set of cardinals stays one.
pub proof fn turn_keeps_cardinals(set: Adjacency, direction: Adjacency)
    requires
        direction.is_cardinal(),
        set.bits & Adjacency::DIAGONALS == 0,
    ensures
        set.turned(direction).bits & Adjacency::DIAGONALS == 0,
{
    let bits = set.bits;
    assert(bits & 0xf0 == 0 ==> permuted(
        bits,
        (0x02u8, 0x01u8, 0x08u8, 0x04u8, 0x40u8, 0x80u8, 0x10u8, 0x20u8),
    ) & 0xf0 == 0) by (bit_vector);
    assert(bits & 0xf0 == 0 ==> permuted(
        bits,
        (0x01u8, 0x02u8, 0x04u8, 0x08u8, 0x10u8, 0x20u8, 0x40u8, 0x80u8),
    ) & 0xf0 == 0) by (bit_vector);
    assert(bits & 0xf0 == 0 ==> permuted(
        bits,
        (0x08u8, 0x04u8, 0x01u8, 0x02u8, 0x80u8, 0x10u8, 0x20u8, 0x40u8),
    ) & 0xf0 == 0) by (bit_vector);
    assert(bits & 0xf0 == 0 ==> permuted(
        bits,
        (0x04u8, 0x08u8, 0x02u8, 0x01u8, 0x20u8, 0x40u8, 0x80u8, 0x10u8),
    ) & 0xf0 == 0) by (bit_vector);
}

/// The union of the images of `flags` under the turn towards `direction`.
pub open spec fn united_turns(flags: Seq<Adjacency>, direction: Adjacency) -> u8
    decreases flags.len(),
{
    if flags.len() == 0 {
        0u8
    } else {
        united_turns(flags.drop_last(), direction) | flags.last().turned(direction).bits
    }
}

/// The union of the images, under `table`, of those flags of `bits` that are
/// among the first `count` single flags.
pub open spec fn permuted_within(
    bits: u8,
    table: (u8, u8, u8, u8, u8, u8, u8, u8),
    count: nat,
) -> u8
    decreases count,
{
    if count == 0 {
        0u8
    } else {
        permuted_within(bits, table, (count - 1) as nat) | moved(
            bits,
            Adjacency::single_flags()[count - 1].bits,
            table_entry(table, count - 1),
        )
    }
}

proof fn lemma_single_turn(bits: u8, direction: u8)
    requires
        Adjacency::of(bits).is_single(),
        Adjacency::of(direction).is_cardinal(),
    ensures
        Adjacency::of(bits).turned(Adjacency::of(direction)).is_single(),
        Adjacency::of(bits).turned(Adjacency::of(direction)).is_cardinal() <==> Adjacency::of(
            bits,
        ).is_cardinal(),
        bits == 0x01 ==> permuted(bits, turn_table(direction)) == turn_table(direction).0,
        bits == 0x02 ==> permuted(bits, turn_table(direction)) == turn_table(direction).1,
        bits == 0x04 ==> permuted(bits, turn_table(direction)) == turn_table(direction).2,
        bits == 0x08 ==> permuted(bits, turn_table(direction)) == turn_table(direction).3,
        bits == 0x10 ==> permuted(bits, turn_table(direction)) == turn_table(direction).4,
        bits == 0x20 ==> permuted(bits, turn_table(direction)) == turn_table(direction).5,
        bits == 0x40 ==> permuted(bits, turn_table(direction)) == turn_table(direction).6,
        bits == 0x80 ==> permuted(bits, turn_table(direction)) == turn_table(direction).7,
{
    let t = turn_table(direction);
    assert(bits == 0x01 ==> permuted(bits, t) == t.0) by {
        lemma_single_permuted(bits, t.0, t.1, t.2, t.3, t.4, t.5, t.6, t.7);
    }
    lemma_single_permuted(bits, t.0, t.1, t.2, t.3, t.4, t.5, t.6, t.7);
}

proof fn lemma_single_permuted(
    bits: u8,
    a: u8,
    b: u8,
    c: u8,
    d: u8,
    e: u8,
    f: u8,
    g: u8,
    h: u8,
)
    ensures
        bits == 0x01 ==> permuted(bits, (a, b, c, d, e, f, g, h)) == a,
        bits == 0x02 ==> permuted(bits, (a, b, c, d, e, f, g, h)) == b,
        bits == 0x04 ==> permuted(bits, (a, b, c, d, e, f, g, h)) == c,
        bits == 0x08 ==> permuted(bits, (a, b, c, d, e, f, g, h)) == d,
        bits == 0x10 ==> permuted(bits, (a, b, c, d, e, f, g, h)) == e,
        bits == 0x20 ==> permuted(bits, (a, b, c, d, e, f, g, h)) == f,
        bits == 0x40 ==> permuted(bits, (a, b, c, d, e, f, g, h)) == g,
        bits == 0x80 ==> permuted(bits, (a, b, c, d, e, f, g, h)) == h,
{
    assert(bits == 0x01 ==> permuted(bits, (a, b, c, d, e, f, g, h)) == a) by (bit_vector);
    assert(bits == 0x02 ==> permuted(bits, (a, b, c, d, e, f, g, h)) == b) by (bit_vector);
    assert(bits == 0x04 ==> permuted(bits, (a, b, c, d, e, f, g, h)) == c) by (bit_vector);
    assert(bits == 0x08 ==> permuted(bits, (a, b, c, d, e, f, g, h)) == d) by (bit_vector);
    assert(bits == 0x10 ==> permuted(bits, (a, b, c, d, e, f, g, h)) == e) by (bit_vector);
    assert(bits == 0x20 ==> permuted(bits, (a, b, c, d, e, f, g, h)) == f) by (bit_vector);
    assert(bits == 0x40 ==> permuted(bits, (a, b, c, d, e, f, g, h)) == g) by (bit_vector);
    assert(bits == 0x80 ==> permuted(bits, (a, b, c, d, e, f, g, h)) == h) by (bit_vector);
}

proof fn lemma_flags_are_cardinal(set: Adjacency, count: nat)
    requires
        count <= 8,
        set.only_cardinals(),
    ensures
        forall|i: int|
            0 <= i < set.flags_within(count).len() ==> (#[trigger] set.flags_within(
                count,
            )[i]).is_cardinal(),
    decreases count,
{
    if count > 0 {
        lemma_flags_are_cardinal(set, (count - 1) as nat);
        let before = set.flags_within((count - 1) as nat);
        let flag = Adjacency::single_flags()[count - 1];
        let bits = set.bits;
        let single = flag.bits;
        assert(bits & 0xf0 == 0 && bits & single == single && (single == 0x10 || single == 0x20
            || single == 0x40 || single == 0x80) ==> false) by (bit_vector);
        assert(set.has(flag) ==> flag.is_cardinal());
        assert forall|i: int| 0 <= i < set.flags_within(count).len() implies (
        #[trigger] set.flags_within(count)[i]).is_cardinal() by {
            if i < before.len() {
                assert(before[i].is_cardinal());
            }
        }
    }
}

proof fn lemma_united_turns(set: Adjacency, direction: Adjacency, count: nat)
    requires
        count <= 8,
        direction.is_cardinal(),
    ensures
        united_turns(set.flags_within(count), direction) == permuted_within(
            set.bits,
            turn_table(direction.bits),
            count,
        ),
    decreases count,
{
    if count > 0 {
        let before = set.flags_within((count - 1) as nat);
        let flag = Adjacency::single_flags()[count - 1];
        let table = turn_table(direction.bits);
        let sofar = permuted_within(set.bits, table, (count - 1) as nat);
        lemma_united_turns(set, direction, (count - 1) as nat);
        if set.has(flag) {
            assert(before.push(flag).drop_last() =~= before);
            lemma_single_turn(flag.bits, direction.bits);
            assert(flag.turned(direction).bits == table_entry(table, count - 1));
        } else {
            assert(sofar | 0u8 == sofar) by (bit_vector);
        }
    }
}

proof fn lemma_permuted_unrolls(bits: u8, table: (u8, u8, u8, u8, u8, u8, u8, u8))
    ensures
        permuted_within(bits, table, 8) == permuted(bits, table),
{
    reveal_with_fuel(permuted_within, 9);
    let a = moved(bits, 0x01, table.0);
    let b = moved(bits, 0x02, table.1);
    let c = moved(bits, 0x04, table.2);
    let d = moved(bits, 0x08, table.3);
    let e = moved(bits, 0x10, table.4);
    let f = moved(bits, 0x20, table.5);
    let g = moved(bits, 0x40, table.6);
    let h = moved(bits, 0x80, table.7);
    assert(permuted_within(bits, table, 8) == (((((((0u8 | a) | b) | c) | d) | e) | f) | g) | h);
    assert((((((((0u8 | a) | b) | c) | d) | e) | f) | g) | h == a | b | c | d | e | f | g | h)
        by (bit_vector);
}

} // verus!
