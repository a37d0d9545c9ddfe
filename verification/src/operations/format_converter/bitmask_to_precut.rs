use image::DynamicImage;
use vstd::prelude::*;

use crate::config::blocks::cutters::{first_value, Delay, StringMap};
use crate::operations::cutters::bitmask_slice::{canvas_fits, fits_in_memory, offset};
use crate::operations::error::ProcessorError;
use crate::operations::icon::{Icon, IconState};
use crate::operations::{
    ConfigLine, IconOperationConfig, InputIcon, LineView, OperationMode, ProcessorPayload,
};
use crate::util::color::Color;
use crate::util::raster::{
    blank_image, clear, copy_into, filled, has_size, image_is_rgba8, image_rows, image_size,
    replaced,
};
use crate::util::text::{
    decimal, decimal_text, is_number, is_number_text, join, joined, name_prefix, name_suffix,
    split_name, texts,
};

verus! {

/// Turns an icon file that a sheet was cut into back into a sheet and its
/// configuration: the states that are asked for are laid out side by side,
/// a column for each and a row for each frame.
#[derive(Clone, PartialEq, Debug)]
pub struct BitmaskSliceReconstruct {
    /// The states to take, by what follows the prefix in their name.
    pub extract: Vec<String>,
    /// The states that become literal tiles, and the signature of each.
    pub bespoke: Option<StringMap>,
    /// Values to write into the configuration as they are.
    pub set: Option<StringMap>,
}

/// The delays of a state, as values.
pub open spec fn delays_of(delay: Option<Vec<Delay>>) -> Option<Seq<Delay>> {
    match delay {
        Some(delays) => Some(delays@),
        None => None,
    }
}

/// Whether a text is among those of a list.
pub open spec fn among(items: Seq<Seq<char>>, text: Seq<char>) -> bool {
    exists|i: int| 0 <= i < items.len() && items[i] == text
}

/// The places, among the first `count` states, of the states whose name
/// ends in `suffix`.
pub open spec fn places_of(states: Seq<IconState>, suffix: Seq<char>, count: int) -> Seq<usize>
    decreases count,
{
    if count <= 0 {
        Seq::empty()
    } else if name_suffix(states[count - 1].name@) == suffix {
        places_of(states, suffix, count - 1).push((count - 1) as usize)
    } else {
        places_of(states, suffix, count - 1)
    }
}

/// The places of the states that are laid out, in the order of the sheet:
/// the states are grouped by the first `count` names of `keys`, a name that
/// stands twice counting where it stands first, and keep their order within
/// a group.
pub open spec fn layout(states: Seq<IconState>, keys: Seq<Seq<char>>, count: int) -> Seq<usize>
    decreases count,
{
    if count <= 0 {
        Seq::empty()
    } else if among(keys.take(count - 1), keys[count - 1]) {
        layout(states, keys, count - 1)
    } else {
        layout(states, keys, count - 1) + places_of(states, keys[count - 1], states.len() as int)
    }
}

/// The largest number of frames among the first `count` states of the
/// layout, and one at least.
pub open spec fn longest(states: Seq<IconState>, order: Seq<usize>, count: int) -> int
    decreases count,
{
    if count <= 0 {
        1
    } else if states[order[count - 1] as int].frames > longest(states, order, count - 1) {
        states[order[count - 1] as int].frames as int
    } else {
        longest(states, order, count - 1)
    }
}

/// The sheet with the first `count` frames of a state laid down in a
/// column, one below the other.
pub open spec fn with_frames(
    base: Seq<Seq<Color>>,
    frames: Seq<DynamicImage>,
    x: int,
    height: int,
    count: int,
) -> Seq<Seq<Color>>
    decreases count,
{
    if count <= 0 {
        base
    } else {
        replaced(
            with_frames(base, frames, x, height, count - 1),
            image_rows(frames[count - 1]),
            x,
            (count - 1) * height,
        )
    }
}

/// The sheet with the first `count` states of the layout laid down, a
/// column for each.
pub open spec fn with_states(
    base: Seq<Seq<Color>>,
    states: Seq<IconState>,
    order: Seq<usize>,
    width: int,
    height: int,
    count: int,
) -> Seq<Seq<Color>>
    decreases count,
{
    if count <= 0 {
        base
    } else {
        with_frames(
            with_states(base, states, order, width, height, count - 1),
            states[order[count - 1] as int].images@,
            (count - 1) * width,
            height,
            states[order[count - 1] as int].images.len() as int,
        )
    }
}

/// A frame fits into a sheet of the given size where it is to be laid
/// down.
pub open spec fn frame_fits(frame: Seq<Seq<Color>>, x: int, y: int, width: int, height: int) -> bool {
    &&& frame.len() + y <= height
    &&& forall|row: int| 0 <= row < frame.len() ==> (#[trigger] frame[row]).len() + x <= width
}

/// What the lines of a configuration say.
pub open spec fn lines_view(lines: Seq<ConfigLine>) -> Seq<LineView> {
    Seq::new(lines.len(), |i: int| lines[i]@)
}

/// `length - part`, or nothing where the part is larger.
pub open spec fn rest(length: int, part: int) -> int {
    if length >= part {
        length - part
    } else {
        0
    }
}

/// A line for each entry: the key, ` = ` and the value.
pub open spec fn entry_lines(entries: Seq<(String, String)>) -> Seq<LineView> {
    Seq::new(entries.len(), |i: int| LineView::Text(entries[i].0@ + " = "@ + entries[i].1@))
}

/// A line for each literal tile: its signature, ` = ` and its column, the
/// columns counted up from `first`.
pub open spec fn prefab_lines(entries: Seq<(String, String)>, first: int) -> Seq<LineView> {
    Seq::new(
        entries.len(),
        |i: int|
            LineView::Text(
                entries[i].1@ + " = "@ + decimal(
                    (if first + i <= usize::MAX {
                        first + i
                    } else {
                        usize::MAX as int
                    }) as nat,
                ),
            ),
    )
}

/// The lines that tell the size of the tiles and where they are cut.
pub open spec fn geometry_lines(width: u32, height: u32) -> Seq<LineView> {
    seq![
        LineView::Text("[icon_size]"@),
        LineView::Text("x = "@ + decimal(width as nat)),
        LineView::Text("y = "@ + decimal(height as nat)),
        LineView::Text(Seq::empty()),
        LineView::Text("[output_icon_size]"@),
        LineView::Text("x = "@ + decimal(width as nat)),
        LineView::Text("y = "@ + decimal(height as nat)),
        LineView::Text(Seq::empty()),
        LineView::Text("[cut_pos]"@),
        LineView::Text("x = "@ + decimal((width / 2) as nat)),
        LineView::Text("y = "@ + decimal((height / 2) as nat)),
        LineView::Text(Seq::empty()),
    ]
}

impl BitmaskSliceReconstruct {
    /// Whether a state is taken: its suffix is a key of the literal tiles,
    /// or is among the names to take.
    pub open spec fn takes(self, suffix: Seq<char>) -> bool {
        self.is_bespoke(suffix) || among(texts(self.extract@), suffix)
    }

    /// Whether a suffix is a key of the literal tiles.
    pub open spec fn is_bespoke(self, suffix: Seq<char>) -> bool {
        self.bespoke is Some && first_value(self.bespoke->Some_0.0@, suffix) is Some
    }

    /// The names of the states among the first `count` whose prefix is not
    /// that of the first state.
    pub open spec fn strays(states: Seq<IconState>, count: int) -> Seq<Seq<char>>
        decreases count,
    {
        if count <= 0 {
            Seq::empty()
        } else if name_prefix(states[count - 1].name@) != name_prefix(states[0].name@) {
            Self::strays(states, count - 1).push(states[count - 1].name@)
        } else {
            Self::strays(states, count - 1)
        }
    }

    /// The suffixes of the states among the first `count` that are literal
    /// tiles, in the order of the states.
    pub open spec fn found(self, states: Seq<IconState>, count: int) -> Seq<Seq<char>>
        decreases count,
    {
        if count <= 0 {
            Seq::empty()
        } else if self.is_bespoke(name_suffix(states[count - 1].name@)) {
            self.found(states, count - 1).push(name_suffix(states[count - 1].name@))
        } else {
            self.found(states, count - 1)
        }
    }

    /// The suffixes of the states among the first `count` that are taken.
    pub open spec fn caught(self, states: Seq<IconState>, count: int) -> Seq<Seq<char>>
        decreases count,
    {
        if count <= 0 {
            Seq::empty()
        } else if self.takes(name_suffix(states[count - 1].name@)) {
            self.caught(states, count - 1).push(name_suffix(states[count - 1].name@))
        } else {
            self.caught(states, count - 1)
        }
    }

    /// The suffixes, in brackets, of the states among the first `count`
    /// that are not taken although their suffix is no number.
    pub open spec fn missed(self, states: Seq<IconState>, count: int) -> Seq<Seq<char>>
        decreases count,
    {
        if count <= 0 {
            Seq::empty()
        } else if !self.takes(name_suffix(states[count - 1].name@)) && !is_number_text(
            name_suffix(states[count - 1].name@),
        ) {
            self.missed(states, count - 1).push(
                seq!['('] + name_suffix(states[count - 1].name@) + seq![')'],
            )
        } else {
            self.missed(states, count - 1)
        }
    }

    /// The names by which the states are grouped on the sheet: the names to
    /// take, then the literal tiles that were found.
    pub open spec fn keys(self, states: Seq<IconState>) -> Seq<Seq<char>> {
        texts(self.extract@) + self.found(states, states.len() as int)
    }

    /// The places of the states that are laid out, in the order of the
    /// sheet.
    pub open spec fn order(self, states: Seq<IconState>) -> Seq<usize> {
        layout(states, self.keys(states), self.keys(states).len() as int)
    }

    /// The width of the sheet: a tile for every state that is laid out.
    pub open spec fn sheet_width(self, icon: Icon) -> int {
        icon.width * self.order(icon.states@).len()
    }

    /// The height of the sheet: a tile for every frame of the longest
    /// animation.
    pub open spec fn sheet_height(self, icon: Icon) -> int {
        icon.height * longest(
            icon.states@,
            self.order(icon.states@),
            self.order(icon.states@).len() as int,
        )
    }

    /// The sheet can be held in memory.
    pub open spec fn sheet_fits(self, icon: Icon) -> bool {
        &&& self.order(icon.states@).len() <= u32::MAX
        &&& self.sheet_width(icon) <= u32::MAX
        &&& self.sheet_height(icon) <= u32::MAX
        &&& 4 * self.sheet_width(icon) * self.sheet_height(icon) <= usize::MAX
    }

    /// The delays that every state must have: those of the first state of
    /// the sheet.
    pub open spec fn delays(self, icon: Icon) -> Option<Seq<Delay>> {
        if self.order(icon.states@).len() > 0 {
            delays_of(icon.states@[self.order(icon.states@)[0] as int].delay)
        } else {
            None
        }
    }

    /// The `frame`-th frame of the `place`-th state of the sheet fits where
    /// it belongs.
    pub open spec fn fits_at(self, icon: Icon, place: int, frame: int) -> bool {
        frame_fits(
            image_rows(icon.states@[self.order(icon.states@)[place] as int].images@[frame]),
            place * icon.width,
            frame * icon.height,
            self.sheet_width(icon),
            self.sheet_height(icon),
        )
    }

    /// The `place`-th state of the sheet has the delays of the first, and
    /// all its frames fit.
    pub open spec fn copies(self, icon: Icon, place: int) -> bool {
        let state = icon.states@[self.order(icon.states@)[place] as int];
        &&& delays_of(state.delay) == self.delays(icon)
        &&& forall|frame: int| 0 <= frame < state.images.len() ==> #[trigger] self.fits_at(icon, place, frame)
    }

    /// The sheet: clear, with every state that is laid out in its column.
    pub open spec fn sheet_rows(self, icon: Icon) -> Seq<Seq<Color>> {
        with_states(
            filled(clear(), self.sheet_width(icon), self.sheet_height(icon)),
            icon.states@,
            self.order(icon.states@),
            icon.width as int,
            icon.height as int,
            self.order(icon.states@).len() as int,
        )
    }

    /// The lines of the configuration that gives the icon back when the
    /// sheet is cut with it: the prefix of the names; the values to set;
    /// the columns of the literal tiles, which stand after the other tiles;
    /// the delays; and the size of a tile, cut in the middle.
    pub open spec fn config_lines(self, icon: Icon) -> Seq<LineView> {
        let states = icon.states@;
        let named = if states.len() > 0 {
            seq![LineView::Text("output_name = \""@ + name_prefix(states[0].name@) + "\""@)]
        } else {
            Seq::empty()
        };
        let set = match self.set {
            Some(map) => entry_lines(map.0@) + seq![LineView::Text(Seq::empty())],
            None => Seq::empty(),
        };
        let prefabs = match self.bespoke {
            Some(map) => seq![LineView::Text("[prefabs]"@)] + prefab_lines(
                map.0@,
                rest(
                    self.order(states).len() as int,
                    self.found(states, states.len() as int).len() as int,
                ),
            ) + seq![LineView::Text(Seq::empty())],
            None => Seq::empty(),
        };
        let animation = match self.delays(icon) {
            Some(delays) => seq![
                LineView::Text("[animation]"@),
                LineView::Delays(delays),
                LineView::Text(Seq::empty()),
            ],
            None => Seq::empty(),
        };
        named + set + prefabs + animation + geometry_lines(icon.width, icon.height)
    }

    /// What is reported of a frame that does not fit into its tile.
    pub open spec fn copy_message(suffix: Seq<char>, frame: int) -> Seq<char> {
        "Failed to copy frame (bad dmi?): "@ + suffix + " #"@ + decimal(frame as nat)
    }

    /// The `frame`-th frame of the `place`-th state of the sheet is the first
    /// of its state that does not fit, and `message` says so.
    pub open spec fn frame_fails(
        self,
        icon: Icon,
        place: int,
        frame: int,
        message: Seq<char>,
    ) -> bool {
        let state = icon.states@[self.order(icon.states@)[place] as int];
        &&& 0 <= frame < state.images.len()
        &&& forall|before: int| 0 <= before < frame ==> #[trigger] self.fits_at(icon, place, before)
        &&& !self.fits_at(icon, place, frame)
        &&& message == Self::copy_message(name_suffix(state.name@), frame)
    }

    /// Every state of the sheet before the `place`-th has the delays of the
    /// first, and all its frames fit.
    pub open spec fn copies_before(self, icon: Icon, place: int) -> bool {
        forall|before: int| 0 <= before < place ==> #[trigger] self.copies(icon, before)
    }

    /// The `place`-th state of the sheet is the first that cannot be laid
    /// down because a frame of it does not fit, and `message` says so.
    pub open spec fn copy_fails(self, icon: Icon, place: int, frame: int, message: Seq<char>) -> bool {
        let state = icon.states@[self.order(icon.states@)[place] as int];
        &&& 0 <= place < self.order(icon.states@).len()
        &&& self.copies_before(icon, place)
        &&& delays_of(state.delay) == self.delays(icon)
        &&& self.frame_fails(icon, place, frame, message)
    }

    /// The `place`-th state of the sheet is the first whose delays are not
    /// those of the first state.
    pub open spec fn delays_differ(
        self,
        icon: Icon,
        place: int,
        state: Seq<char>,
        found: Option<Seq<Delay>>,
        expected: Option<Seq<Delay>>,
    ) -> bool {
        let at = icon.states@[self.order(icon.states@)[place] as int];
        &&& 0 <= place < self.order(icon.states@).len()
        &&& self.copies_before(icon, place)
        &&& delays_of(at.delay) != self.delays(icon)
        &&& state == name_suffix(at.name@)
        &&& found == delays_of(at.delay)
        &&& expected == self.delays(icon)
    }

    /// A frame of a state does not fit, and `message` says so of the first
    /// such frame.
    pub open spec fn some_copy_fails(self, icon: Icon, message: Seq<char>) -> bool {
        exists|place: int, frame: int| #[trigger] self.copy_fails(icon, place, frame, message)
    }

    /// The delays of a state differ from those of the first, and the first
    /// such state is reported.
    pub open spec fn some_delays_differ(
        self,
        icon: Icon,
        state: Seq<char>,
        found: Option<Seq<Delay>>,
        expected: Option<Seq<Delay>>,
    ) -> bool {
        exists|place: int| #[trigger] self.delays_differ(icon, place, state, found, expected)
    }

    /// What the operation gives for an input: the sheet and its
    /// configuration, or the first of the things that stand against it.
    pub open spec fn operation_done(
        self,
        input: InputIcon,
        done: Result<ProcessorPayload, ProcessorError>,
    ) -> bool {
        match input {
            InputIcon::DynamicImage(_) => done is Err && done->Err_0 is FormatError,
            InputIcon::Dmi(icon) => {
                let states = icon.states@;
                let order = self.order(states);
                let named = Self::strays(states, states.len() as int).len() == 0;
                let kept = self.missed(states, states.len() as int).len() == 0;
                match done {
                    Ok(payload) => {
                        &&& named
                        &&& kept
                        &&& self.sheet_fits(icon)
                        &&& self.copies_before(icon, order.len() as int)
                        &&& payload is ConfigWrapped
                        &&& *payload->ConfigWrapped_0 is Single
                        &&& *((*payload->ConfigWrapped_0)->Single_0) is Png
                        &&& image_rows((*((*payload->ConfigWrapped_0)->Single_0))->Png_0)
                            == self.sheet_rows(icon)
                        &&& *payload->ConfigWrapped_1 is PngConfig
                        &&& lines_view((*payload->ConfigWrapped_1)->PngConfig_0@)
                            == self.config_lines(icon)
                    },
                    Err(ProcessorError::DmiError(message)) => if !named {
                        message@ == Self::stray_message(states)
                    } else if !kept {
                        message@ == self.missed_message(states)
                    } else {
                        &&& self.sheet_fits(icon)
                        &&& self.some_copy_fails(icon, message@)
                    },
                    Err(ProcessorError::OutputTooLarge { width, height }) => named && kept
                        && !self.sheet_fits(icon),
                    Err(ProcessorError::DelayMismatch { state, found, expected }) => {
                        &&& named
                        &&& kept
                        &&& self.sheet_fits(icon)
                        &&& self.some_delays_differ(
                            icon,
                            state@,
                            delays_of(found),
                            delays_of(expected),
                        )
                    },
                    Err(_) => false,
                }
            },
        }
    }

    /// What is reported of states that do not share the prefix of the
    /// first.
    pub open spec fn stray_message(states: Seq<IconState>) -> Seq<char> {
        "The following icon states are named with inconsistent prefixes (with the rest of the file) ["@
            + joined(Self::strays(states, states.len() as int), ", "@) + "]"@
    }

    /// What is reported of states that would be lost.
    pub open spec fn missed_message(self, states: Seq<IconState>) -> Seq<char> {
        "Restoration would fail to properly parse the following icon states ["@ + joined(
            self.missed(states, states.len() as int),
            ", "@,
        ) + "] not parsed like ["@ + joined(self.caught(states, states.len() as int), ", "@)
            + "]"@
    }
}

/// The prefix and the suffix of the name of every state.
pub fn name_parts(icon: &Icon) -> (parts: Vec<(String, String)>)
    ensures
        parts.len() == icon.states.len(),
        forall|i: int|
            0 <= i < parts.len() ==> (#[trigger] parts[i]).0@ == name_prefix(icon.states[i].name@)
                && parts[i].1@ == name_suffix(icon.states[i].name@),
{
    let mut parts: Vec<(String, String)> = Vec::new();
    let mut index: usize = 0;
    while index < icon.states.len()
        invariant
            index <= icon.states.len(),
            parts.len() == index,
            forall|i: int|
                0 <= i < index ==> (#[trigger] parts[i]).0@ == name_prefix(icon.states[i].name@)
                    && parts[i].1@ == name_suffix(icon.states[i].name@),
        decreases icon.states.len() - index,
    {
        let split = split_name(icon.states[index].name.as_str());
        parts.push(split);
        index += 1;
    }
    parts
}

/// The names of the states whose prefix is not that of the first state.
pub fn stray_names(icon: &Icon, parts: &Vec<(String, String)>) -> (strays: Vec<String>)
    requires
        parts.len() == icon.states.len(),
        forall|i: int|
            0 <= i < parts.len() ==> (#[trigger] parts[i]).0@ == name_prefix(icon.states[i].name@),
    ensures
        texts(strays@) == BitmaskSliceReconstruct::strays(icon.states@, icon.states.len() as int),
{
    let mut strays: Vec<String> = Vec::new();
    let mut index: usize = 0;
    assert(texts(strays@) =~= Seq::<Seq<char>>::empty());
    while index < parts.len()
        invariant
            index <= parts.len(),
            parts.len() == icon.states.len(),
            forall|i: int|
                0 <= i < parts.len() ==> (#[trigger] parts[i]).0@ == name_prefix(
                    icon.states[i].name@,
                ),
            texts(strays@) == BitmaskSliceReconstruct::strays(icon.states@, index as int),
        decreases parts.len() - index,
    {
        if parts[index].0 != parts[0].0 {
            let ghost before = strays@;
            strays.push(icon.states[index].name.clone());
            assert(texts(strays@) =~= texts(before).push(icon.states[index as int].name@));
        }
        index += 1;
    }
    strays
}

impl BitmaskSliceReconstruct {
    /// Whether a suffix is a key of the literal tiles.
    pub fn has_bespoke(&self, suffix: &str) -> (bespoke: bool)
        ensures
            bespoke == self.is_bespoke(suffix@),
    {
        match &self.bespoke {
            Some(map) => map.get(suffix).is_some(),
            None => false,
        }
    }

    /// The suffixes of the literal tiles that were found, those of the
    /// states that are taken, and those, in brackets, of the states that
    /// would be lost.
    pub fn sort_out(&self, icon: &Icon, parts: &Vec<(String, String)>) -> (sorted: (
        Vec<String>,
        Vec<String>,
        Vec<String>,
    ))
        requires
            parts.len() == icon.states.len(),
            forall|i: int|
                0 <= i < parts.len() ==> (#[trigger] parts[i]).1@ == name_suffix(
                    icon.states[i].name@,
                ),
        ensures
            texts(sorted.0@) == self.found(icon.states@, icon.states.len() as int),
            texts(sorted.1@) == self.caught(icon.states@, icon.states.len() as int),
            texts(sorted.2@) == self.missed(icon.states@, icon.states.len() as int),
    {
        let mut found: Vec<String> = Vec::new();
        let mut caught: Vec<String> = Vec::new();
        let mut missed: Vec<String> = Vec::new();
        let mut index: usize = 0;
        assert(texts(found@) =~= Seq::<Seq<char>>::empty());
        assert(texts(caught@) =~= Seq::<Seq<char>>::empty());
        assert(texts(missed@) =~= Seq::<Seq<char>>::empty());
        while index < parts.len()
            invariant
                index <= parts.len(),
                parts.len() == icon.states.len(),
                forall|i: int|
                    0 <= i < parts.len() ==> (#[trigger] parts[i]).1@ == name_suffix(
                        icon.states[i].name@,
                    ),
                texts(found@) == self.found(icon.states@, index as int),
                texts(caught@) == self.caught(icon.states@, index as int),
                texts(missed@) == self.missed(icon.states@, index as int),
            decreases parts.len() - index,
        {
            let suffix = &parts[index].1;
            let bespoke = self.has_bespoke(suffix.as_str());
            let taken = bespoke || is_among(&self.extract, suffix);
            if bespoke {
                let ghost before = found@;
                found.push(suffix.clone());
                assert(texts(found@) =~= texts(before).push(suffix@));
            }
            if taken {
                let ghost before = caught@;
                caught.push(suffix.clone());
                assert(texts(caught@) =~= texts(before).push(suffix@));
            } else if !is_number(suffix.as_str()) {
                let mut bracketed = "(".to_owned();
                bracketed.append(suffix.as_str());
                bracketed.append(")");
                proof {
                    reveal_strlit("(");
                    reveal_strlit(")");
                    assert(bracketed@ =~= seq!['('] + suffix@ + seq![')']);
                }
                let ghost before = missed@;
                missed.push(bracketed);
                assert(texts(missed@) =~= texts(before).push(seq!['('] + suffix@ + seq![')']));
            }
            index += 1;
        }
        (found, caught, missed)
    }

    /// The names by which the states are grouped on the sheet.
    pub fn group_names(&self, found: &Vec<String>) -> (keys: Vec<String>)
        ensures
            texts(keys@) == texts(self.extract@) + texts(found@),
    {
        let mut keys: Vec<String> = Vec::new();
        let mut index: usize = 0;
        while index < self.extract.len()
            invariant
                index <= self.extract.len(),
                texts(keys@) == texts(self.extract@).take(index as int),
            decreases self.extract.len() - index,
        {
            let ghost before = keys@;
            keys.push(self.extract[index].clone());
            assert(texts(keys@) =~= texts(before).push(self.extract@[index as int]@));
            assert(texts(self.extract@).take(index + 1) =~= texts(self.extract@).take(
                index as int,
            ).push(self.extract@[index as int]@));
            index += 1;
        }
        assert(texts(self.extract@).take(self.extract.len() as int) =~= texts(self.extract@));
        let mut index: usize = 0;
        assert(texts(keys@) =~= texts(self.extract@) + texts(found@).take(0));
        while index < found.len()
            invariant
                index <= found.len(),
                texts(keys@) == texts(self.extract@) + texts(found@).take(index as int),
            decreases found.len() - index,
        {
            let ghost before = keys@;
            keys.push(found[index].clone());
            assert(texts(keys@) =~= texts(before).push(found@[index as int]@));
            assert(texts(found@).take(index + 1) =~= texts(found@).take(index as int).push(
                found@[index as int]@,
            ));
            assert(texts(keys@) =~= texts(self.extract@) + texts(found@).take(index + 1));
            index += 1;
        }
        assert(texts(found@).take(found.len() as int) =~= texts(found@));
        keys
    }
}

/// The places of the states in the order in which they are laid out.
pub fn lay_out(icon: &Icon, parts: &Vec<(String, String)>, keys: &Vec<String>) -> (order: Vec<usize>)
    requires
        parts.len() == icon.states.len(),
        forall|i: int|
            0 <= i < parts.len() ==> (#[trigger] parts[i]).1@ == name_suffix(icon.states[i].name@),
    ensures
        order@ == layout(icon.states@, texts(keys@), keys.len() as int),
        forall|i: int| 0 <= i < order.len() ==> (#[trigger] order[i]) < icon.states.len(),
{
    let ghost states = icon.states@;
    let ghost names = texts(keys@);
    let mut order: Vec<usize> = Vec::new();
    let mut index: usize = 0;
    while index < keys.len()
        invariant
            index <= keys.len(),
            states == icon.states@,
            names == texts(keys@),
            parts.len() == icon.states.len(),
            forall|i: int|
                0 <= i < parts.len() ==> (#[trigger] parts[i]).1@ == name_suffix(
                    icon.states[i].name@,
                ),
            order@ == layout(states, names, index as int),
            forall|i: int| 0 <= i < order.len() ==> (#[trigger] order[i]) < icon.states.len(),
        decreases keys.len() - index,
    {
        let mut earlier: usize = 0;
        let mut seen = false;
        while earlier < index
            invariant
                earlier <= index < keys.len(),
                names == texts(keys@),
                seen <==> exists|i: int| 0 <= i < earlier && names[i] == names[index as int],
            decreases index - earlier,
        {
            if keys[earlier] == keys[index] {
                assert(names[earlier as int] == names[index as int]);
                seen = true;
            }
            earlier += 1;
        }
        proof {
            let head = names.take(index as int);
            if seen {
                let at = choose|i: int| 0 <= i < index && names[i] == names[index as int];
                assert(head[at] == names[index as int]);
            }
            if among(head, names[index as int]) {
                let at = choose|i: int| 0 <= i < head.len() && head[i] == names[index as int];
                assert(names[at] == names[index as int]);
            }
        }
        if !seen {
            let ghost before = order@;
            let mut place: usize = 0;
            assert(order@ =~= before + places_of(states, names[index as int], 0));
            while place < parts.len()
                invariant
                    place <= parts.len(),
                    index < keys.len(),
                    states == icon.states@,
                    names == texts(keys@),
                    parts.len() == icon.states.len(),
                    forall|i: int|
                        0 <= i < parts.len() ==> (#[trigger] parts[i]).1@ == name_suffix(
                            icon.states[i].name@,
                        ),
                    order@ == before + places_of(states, names[index as int], place as int),
                    forall|i: int| 0 <= i < order.len() ==> (#[trigger] order[i]) < icon.states.len(),
                decreases parts.len() - place,
            {
                if parts[place].1 == keys[index] {
                    assert(names[index as int] == keys@[index as int]@);
                    order.push(place);
                    assert(order@ =~= before + places_of(states, names[index as int], place + 1));
                }
                place += 1;
            }
        }
        index += 1;
    }
    order
}

/// Whether two lists of delays are the same.
pub fn same_delays(first: &Option<Vec<Delay>>, second: &Option<Vec<Delay>>) -> (same: bool)
    ensures
        same == (delays_of(*first) == delays_of(*second)),
{
    match (first, second) {
        (None, None) => true,
        (Some(a), Some(b)) => {
            if a.len() != b.len() {
                assert(a@.len() != b@.len());
                return false;
            }
            let mut index: usize = 0;
            while index < a.len()
                invariant
                    index <= a.len(),
                    a.len() == b.len(),
                    delays_of(*first) == Some(a@),
                    delays_of(*second) == Some(b@),
                    forall|i: int| 0 <= i < index ==> a@[i] == b@[i],
                decreases a.len() - index,
            {
                if a[index].bits != b[index].bits {
                    assert(a@[index as int] != b@[index as int]);
                    return false;
                }
                index += 1;
            }
            assert(a@ =~= b@);
            true
        },
        _ => false,
    }
}

/// A copy of a list of delays.
pub fn copy_delays(delays: &Option<Vec<Delay>>) -> (copy: Option<Vec<Delay>>)
    ensures
        delays_of(copy) == delays_of(*delays),
{
    match delays {
        Some(given) => {
            let mut copy: Vec<Delay> = Vec::new();
            let mut index: usize = 0;
            while index < given.len()
                invariant
                    index <= given.len(),
                    copy@ == given@.take(index as int),
                decreases given.len() - index,
            {
                copy.push(given[index]);
                assert(copy@ =~= given@.take(index + 1));
                index += 1;
            }
            assert(given@.take(given.len() as int) =~= given@);
            Some(copy)
        },
        None => None,
    }
}

/// Whether a text is among those of a list.
pub fn is_among(items: &Vec<String>, text: &String) -> (found: bool)
    ensures
        found == among(texts(items@), text@),
{
    let mut index: usize = 0;
    while index < items.len()
        invariant
            index <= items.len(),
            forall|i: int| 0 <= i < index ==> texts(items@)[i] != text@,
        decreases items.len() - index,
    {
        if items[index] == *text {
            assert(texts(items@)[index as int] == text@);
            return true;
        }
        index += 1;
    }
    false
}

impl BitmaskSliceReconstruct {
    /// Lays the frames of a state down in its column of the sheet. Where a
    /// frame does not fit into its tile, its place among the frames is
    /// handed back and the frames after it are left out.
    #[verifier::rlimit(50)]
    fn copy_state(
        &self,
        icon: &Icon,
        order: &Vec<usize>,
        place: usize,
        size: (u32, u32),
        image: &mut DynamicImage,
    ) -> (copied: Result<(), usize>)
        requires
            order@ == self.order(icon.states@),
            place < order.len() <= u32::MAX,
            order[place as int] < icon.states.len(),
            size.0 == self.sheet_width(*icon),
            size.1 == self.sheet_height(*icon),
            image_is_rgba8(*old(image)),
            has_size(image_rows(*old(image)), size.0 as int, size.1 as int),
        ensures
            image_is_rgba8(*final(image)),
            has_size(image_rows(*final(image)), size.0 as int, size.1 as int),
            match copied {
                Ok(_) => {
                    let state = icon.states[order[place as int] as int];
                    &&& forall|frame: int|
                        0 <= frame < state.images.len() ==> #[trigger] self.fits_at(
                            *icon,
                            place as int,
                            frame,
                        )
                    &&& image_rows(*final(image)) == with_frames(
                        image_rows(*old(image)),
                        state.images@,
                        place * icon.width,
                        icon.height as int,
                        state.images.len() as int,
                    )
                },
                Err(frame) => {
                    &&& frame < icon.states[order[place as int] as int].images.len()
                    &&& forall|before: int|
                        0 <= before < frame ==> #[trigger] self.fits_at(*icon, place as int, before)
                    &&& !self.fits_at(*icon, place as int, frame as int)
                },
            },
    {
        let state = &icon.states[order[place]];
        let ghost first = image_rows(*image);
        let x = offset(place as u32, icon.width, 0);
        let mut frame: usize = 0;
        while frame < state.images.len()
            invariant
                frame <= state.images.len(),
                order@ == self.order(icon.states@),
                place < order.len(),
                *state == icon.states[order[place as int] as int],
                x == place * icon.width,
                x <= 0xffff_ffff * 0xffff_ffff + 0xffff_ffff,
                size.0 == self.sheet_width(*icon),
                size.1 == self.sheet_height(*icon),
                image_is_rgba8(*image),
                has_size(image_rows(*image), size.0 as int, size.1 as int),
                forall|before: int|
                    0 <= before < frame ==> #[trigger] self.fits_at(*icon, place as int, before),
                image_rows(*image) == with_frames(
                    first,
                    state.images@,
                    place * icon.width,
                    icon.height as int,
                    frame as int,
                ),
            decreases state.images.len() - frame,
        {
            let picture = &state.images[frame];
            let extent = image_size(picture);
            let ghost rows = image_rows(*picture);
            // where the frame begins, as far as that can lie within the sheet
            let down: Option<u64> = if icon.height == 0 {
                Some(0)
            } else if frame > 0xffff_ffff {
                None
            } else {
                Some(offset(frame as u32, icon.height, 0))
            };
            proof {
                if extent.1 > 0 {
                    assert(rows[0].len() == extent.0);
                }
                if icon.height == 0 {
                    assert(frame * icon.height == 0) by (nonlinear_arith)
                        requires
                            icon.height == 0,
                    ;
                } else if frame > 0xffff_ffff {
                    assert(frame * icon.height > 0xffff_ffff) by (nonlinear_arith)
                        requires
                            frame > 0xffff_ffff,
                            icon.height >= 1,
                    ;
                }
            }
            let fits = match down {
                Some(y) => extent.1 as u64 + y <= size.1 as u64 && (extent.1 == 0 || extent.0 as u64
                    + x <= size.0 as u64),
                None => false,
            };
            assert(fits == self.fits_at(*icon, place as int, frame as int));
            if !fits {
                return Err(frame);
            }
            let top = match down {
                Some(y) => y as u32,
                None => 0,
            };
            let left: u32 = if x <= 0xffff_ffff {
                x as u32
            } else {
                0
            };
            proof {
                if extent.1 == 0 {
                    assert(replaced(image_rows(*image), rows, left as int, top as int) =~~= replaced(
                        image_rows(*image),
                        rows,
                        x as int,
                        frame * icon.height,
                    ));
                }
            }
            copy_into(image, picture, left, top);
            frame += 1;
        }
        Ok(())
    }
}

impl BitmaskSliceReconstruct {
    /// What laying the states down gives: the sheet, or what is reported of
    /// the first state that cannot be laid down.
    pub open spec fn laid_down(self, icon: Icon, done: Result<DynamicImage, ProcessorError>) -> bool {
        match done {
            Ok(image) => self.copies_before(icon, self.order(icon.states@).len() as int)
                && image_rows(image) == self.sheet_rows(icon),
            Err(ProcessorError::DmiError(message)) => self.some_copy_fails(icon, message@),
            Err(ProcessorError::DelayMismatch { state, found, expected }) => self.some_delays_differ(
                icon,
                state@,
                delays_of(found),
                delays_of(expected),
            ),
            Err(_) => false,
        }
    }

    /// Lays the states down on a clear sheet, each in its column.
    #[verifier::rlimit(50)]
    fn copy_states(
        &self,
        icon: &Icon,
        parts: &Vec<(String, String)>,
        order: &Vec<usize>,
        size: (u32, u32),
        delays: &Option<Vec<Delay>>,
    ) -> (done: Result<DynamicImage, ProcessorError>)
        requires
            order@ == self.order(icon.states@),
            order.len() <= u32::MAX,
            forall|i: int| 0 <= i < order.len() ==> (#[trigger] order[i]) < icon.states.len(),
            parts.len() == icon.states.len(),
            forall|i: int|
                0 <= i < parts.len() ==> (#[trigger] parts[i]).1@ == name_suffix(
                    icon.states[i].name@,
                ),
            size.0 == self.sheet_width(*icon),
            size.1 == self.sheet_height(*icon),
            canvas_fits(size.0, size.1),
            delays_of(*delays) == self.delays(*icon),
        ensures
            self.laid_down(*icon, done),
    {
        let ghost states = icon.states@;
        let mut output_image = blank_image(size.0, size.1);
        let ghost blank = image_rows(output_image);
        let mut place: usize = 0;
        while place < order.len()
            invariant
                place <= order.len() <= u32::MAX,
                states == icon.states@,
                order@ == self.order(states),
                forall|i: int| 0 <= i < order.len() ==> (#[trigger] order[i]) < icon.states.len(),
                parts.len() == icon.states.len(),
                forall|i: int|
                    0 <= i < parts.len() ==> (#[trigger] parts[i]).1@ == name_suffix(
                        icon.states[i].name@,
                    ),
                size.0 == self.sheet_width(*icon),
                size.1 == self.sheet_height(*icon),
                blank == filled(clear(), size.0 as int, size.1 as int),
                delays_of(*delays) == self.delays(*icon),
                image_is_rgba8(output_image),
                has_size(image_rows(output_image), size.0 as int, size.1 as int),
                self.copies_before(*icon, place as int),
                image_rows(output_image) == with_states(
                    blank,
                    states,
                    order@,
                    icon.width as int,
                    icon.height as int,
                    place as int,
                ),
            decreases order.len() - place,
        {
            let state = &icon.states[order[place]];
            let suffix = &parts[order[place]].1;
            if !same_delays(delays, &state.delay) {
                let name = suffix.clone();
                let found = copy_delays(&state.delay);
                let expected = copy_delays(delays);
                assert(self.delays_differ(
                    *icon,
                    place as int,
                    name@,
                    delays_of(found),
                    delays_of(expected),
                ));
                return Err(ProcessorError::DelayMismatch { state: name, found, expected });
            }
            match self.copy_state(icon, order, place, size, &mut output_image) {
                Ok(_) => {},
                Err(frame) => {
                    let mut message = "Failed to copy frame (bad dmi?): ".to_owned();
                    message.append(suffix.as_str());
                    message.append(" #");
                    message.append(decimal_text(frame as u64).as_str());
                    assert(message@ =~= Self::copy_message(suffix@, frame as int));
                    assert(self.copy_fails(*icon, place as int, frame as int, message@));
                    return Err(ProcessorError::DmiError(message));
                },
            }
            assert(self.copies(*icon, place as int));
            place += 1;
        }
        Ok(output_image)
    }
}

impl IconOperationConfig for BitmaskSliceReconstruct {
    open spec fn outcome(
        &self,
        input: InputIcon,
        mode: OperationMode,
        sheet: Seq<Seq<Color>>,
        done: Result<ProcessorPayload, ProcessorError>,
    ) -> bool {
        self.operation_done(input, done)
    }

    open spec fn config_outcome(&self, fault: Option<ProcessorError>) -> bool {
        fault is None
    }

    /// Lays the states of an icon file out as a sheet, and writes the
    /// configuration that cuts the sheet into the icon again.
    ///
    /// The names of the states must share their prefix. A state is taken
    /// where what follows the prefix is asked for; one that is not taken
    /// must be named by a number, as the tiles of a cut sheet are, so that
    /// nothing is lost by accident. All states must have the same delays.
    fn perform_operation(&self, input: &InputIcon, mode: OperationMode, glyphs: &DynamicImage) -> (done:
        Result<ProcessorPayload, ProcessorError>)
        ensures
            self.operation_done(*input, done),
    {
        let icon = match input {
            InputIcon::Dmi(icon) => icon,
            InputIcon::DynamicImage(_) => {
                return Err(ProcessorError::FormatError("This operation only accepts dmis".to_owned()));
            },
        };
        let ghost states = icon.states@;
        let parts = name_parts(icon);
        let strays = stray_names(icon, &parts);
        if strays.len() > 0 {
            let mut message =
                "The following icon states are named with inconsistent prefixes (with the rest of the file) [".to_owned();
            message.append(join(&strays, ", ").as_str());
            message.append("]");
            assert(message@ =~= Self::stray_message(states));
            return Err(ProcessorError::DmiError(message));
        }
        let (found, caught, missed) = self.sort_out(icon, &parts);
        if missed.len() > 0 {
            let mut message =
                "Restoration would fail to properly parse the following icon states [".to_owned();
            message.append(join(&missed, ", ").as_str());
            message.append("] not parsed like [");
            message.append(join(&caught, ", ").as_str());
            message.append("]");
            assert(message@ =~= self.missed_message(states));
            return Err(ProcessorError::DmiError(message));
        }
        let keys = self.group_names(&found);
        let order = lay_out(icon, &parts, &keys);
        assert(order@ == self.order(states));
        let frame_count = order.len();
        let longest_frame = longest_animation(icon, &order);
        if frame_count > 0xffff_ffff {
            return Err(
                ProcessorError::OutputTooLarge { width: u32::MAX, height: icon.height },
            );
        }
        let wide = offset(icon.width, frame_count as u32, 0);
        let high = offset(icon.height, longest_frame, 0);
        if wide > 0xffff_ffff || high > 0xffff_ffff {
            return Err(
                ProcessorError::OutputTooLarge {
                    width: if wide > 0xffff_ffff {
                        u32::MAX
                    } else {
                        wide as u32
                    },
                    height: if high > 0xffff_ffff {
                        u32::MAX
                    } else {
                        high as u32
                    },
                },
            );
        }
        if !fits_in_memory(wide as u32, high as u32) {
            return Err(ProcessorError::OutputTooLarge { width: wide as u32, height: high as u32 });
        }
        let size = (wide as u32, high as u32);
        let no_delay: Option<Vec<Delay>> = None;
        let delays: &Option<Vec<Delay>> = if order.len() > 0 {
            &icon.states[order[0]].delay
        } else {
            &no_delay
        };
        let output_image = match self.copy_states(icon, &parts, &order, size, delays) {
            Ok(image) => image,
            Err(error) => {
                return Err(error);
            },
        };
        let mut config: Vec<ConfigLine> = Vec::new();
        assert(lines_view(config@) =~= Seq::<LineView>::empty());
        if icon.states.len() > 0 {
            let mut line = "output_name = \"".to_owned();
            line.append(parts[0].0.as_str());
            line.append("\"");
            assert(line@ =~= "output_name = \""@ + name_prefix(states[0].name@) + "\""@);
            config.push(ConfigLine::Text(line));
            assert(lines_view(config@) =~= seq![
                LineView::Text("output_name = \""@ + name_prefix(states[0].name@) + "\""@),
            ]);
        }
        match &self.set {
            Some(map) => {
                push_entries(&mut config, &map.0);
            },
            None => {},
        }
        let count = if frame_count >= found.len() {
            frame_count - found.len()
        } else {
            0
        };
        match &self.bespoke {
            Some(map) => {
                push_prefabs(&mut config, &map.0, count);
            },
            None => {},
        }
        match delays {
            Some(actual_delay) => {
                let ghost before = lines_view(config@);
                config.push(text_line("[animation]"));
                config.push(
                    ConfigLine::Delays(
                        match copy_delays(delays) {
                            Some(copy) => copy,
                            None => Vec::new(),
                        },
                    ),
                );
                config.push(blank_line());
                assert(lines_view(config@) =~= before + seq![
                    LineView::Text("[animation]"@),
                    LineView::Delays(actual_delay@),
                    LineView::Text(Seq::empty()),
                ]);
            },
            None => {},
        }
        push_geometry(&mut config, icon.width, icon.height);
        assert(lines_view(config@) =~= self.config_lines(*icon));
        Ok(ProcessorPayload::wrap_png_config(ProcessorPayload::from_image(output_image), config))
    }

    fn verify_config(&self) -> (checked: Result<(), ProcessorError>)
        ensures
            checked is Ok,
    {
        Ok(())
    }
}

/// The largest number of frames among the states that are laid out, and
/// one at least.
pub fn longest_animation(icon: &Icon, order: &Vec<usize>) -> (frames: u32)
    requires
        forall|i: int| 0 <= i < order.len() ==> (#[trigger] order[i]) < icon.states.len(),
    ensures
        frames == longest(icon.states@, order@, order.len() as int),
{
    let mut frames: u32 = 1;
    let mut index: usize = 0;
    while index < order.len()
        invariant
            index <= order.len(),
            forall|i: int| 0 <= i < order.len() ==> (#[trigger] order[i]) < icon.states.len(),
            frames == longest(icon.states@, order@, index as int),
        decreases order.len() - index,
    {
        let state = &icon.states[order[index]];
        if state.frames > frames {
            frames = state.frames;
        }
        index += 1;
    }
    frames
}

/// A line that says nothing.
fn blank_line() -> (line: ConfigLine)
    ensures
        line@ == LineView::Text(Seq::empty()),
{
    ConfigLine::Text(String::new())
}

/// A line of a key and a value.
fn pair_line(key: &str, value: &str) -> (line: ConfigLine)
    ensures
        line@ == LineView::Text(key@ + " = "@ + value@),
{
    let mut text = key.to_owned();
    text.append(" = ");
    text.append(value);
    assert(text@ =~= key@ + " = "@ + value@);
    ConfigLine::Text(text)
}

/// A line of text.
fn text_line(text: &str) -> (line: ConfigLine)
    ensures
        line@ == LineView::Text(text@),
{
    ConfigLine::Text(text.to_owned())
}

/// Adds the lines that tell the size of the tiles and where they are cut.
fn push_geometry(lines: &mut Vec<ConfigLine>, width: u32, height: u32)
    ensures
        lines_view(final(lines)@) == lines_view(old(lines)@) + geometry_lines(width, height),
{
    let ghost before = lines_view(lines@);
    let wide = decimal_text(width as u64);
    let high = decimal_text(height as u64);
    lines.push(text_line("[icon_size]"));
    lines.push(pair_line("x", wide.as_str()));
    lines.push(pair_line("y", high.as_str()));
    lines.push(blank_line());
    lines.push(text_line("[output_icon_size]"));
    lines.push(pair_line("x", wide.as_str()));
    lines.push(pair_line("y", high.as_str()));
    lines.push(blank_line());
    lines.push(text_line("[cut_pos]"));
    lines.push(pair_line("x", decimal_text((width / 2) as u64).as_str()));
    lines.push(pair_line("y", decimal_text((height / 2) as u64).as_str()));
    lines.push(blank_line());
    proof {
        reveal_strlit("x");
        reveal_strlit("y");
        reveal_strlit("x = ");
        reveal_strlit("y = ");
        reveal_strlit(" = ");
        assert("x"@ + " = "@ =~= "x = "@);
        assert("y"@ + " = "@ =~= "y = "@);
        assert(lines_view(lines@) =~= before + geometry_lines(width, height));
    }
}

/// Adds a line for each entry, and an empty line after them.
fn push_entries(lines: &mut Vec<ConfigLine>, entries: &Vec<(String, String)>)
    ensures
        lines_view(final(lines)@) == lines_view(old(lines)@) + entry_lines(entries@) + seq![
            LineView::Text(Seq::empty()),
        ],
{
    let ghost before = lines_view(lines@);
    let mut index: usize = 0;
    assert(lines_view(lines@) =~= before + entry_lines(entries@).take(0));
    while index < entries.len()
        invariant
            index <= entries.len(),
            lines_view(lines@) == before + entry_lines(entries@).take(index as int),
        decreases entries.len() - index,
    {
        let ghost held = lines@;
        let line = pair_line(entries[index].0.as_str(), entries[index].1.as_str());
        assert(line@ == entry_lines(entries@)[index as int]);
        lines.push(line);
        assert(lines_view(lines@) =~= lines_view(held).push(line@));
        assert(entry_lines(entries@).take(index + 1) =~= entry_lines(entries@).take(
            index as int,
        ).push(line@));
        assert(lines_view(lines@) =~= before + entry_lines(entries@).take(index + 1));
        index += 1;
    }
    lines.push(blank_line());
    assert(entry_lines(entries@).take(entries.len() as int) =~= entry_lines(entries@));
    assert(lines_view(lines@) =~= before + entry_lines(entries@) + seq![
        LineView::Text(Seq::empty()),
    ]);
}

/// Adds the heading of the literal tiles, a line for each, and an empty
/// line after them.
fn push_prefabs(lines: &mut Vec<ConfigLine>, entries: &Vec<(String, String)>, first: usize)
    ensures
        lines_view(final(lines)@) == lines_view(old(lines)@) + seq![
            LineView::Text("[prefabs]"@),
        ] + prefab_lines(entries@, first as int) + seq![LineView::Text(Seq::empty())],
{
    let ghost before = lines_view(lines@);
    lines.push(text_line("[prefabs]"));
    let ghost headed = before + seq![LineView::Text("[prefabs]"@)];
    let mut count = first;
    let mut index: usize = 0;
    assert(lines_view(lines@) =~= headed + prefab_lines(entries@, first as int).take(0));
    while index < entries.len()
        invariant
            index <= entries.len(),
            count == if first + index <= usize::MAX {
                first + index
            } else {
                usize::MAX as int
            },
            lines_view(lines@) == headed + prefab_lines(entries@, first as int).take(index as int),
        decreases entries.len() - index,
    {
        let ghost held = lines@;
        let line = pair_line(entries[index].1.as_str(), decimal_text(count as u64).as_str());
        assert(line@ == prefab_lines(entries@, first as int)[index as int]);
        lines.push(line);
        assert(lines_view(lines@) =~= lines_view(held).push(line@));
        assert(prefab_lines(entries@, first as int).take(index + 1) =~= prefab_lines(
            entries@,
            first as int,
        ).take(index as int).push(line@));
        assert(lines_view(lines@) =~= headed + prefab_lines(entries@, first as int).take(
            index + 1,
        ));
        if count < usize::MAX {
            count += 1;
        }
        index += 1;
    }
    lines.push(blank_line());
    assert(prefab_lines(entries@, first as int).take(entries.len() as int) =~= prefab_lines(
        entries@,
        first as int,
    ));
    assert(lines_view(lines@) =~= before + seq![LineView::Text("[prefabs]"@)] + prefab_lines(
        entries@,
        first as int,
    ) + seq![LineView::Text(Seq::empty())]);
}

} // verus!
