use image::DynamicImage;
use vstd::prelude::*;

use crate::util::color::Color;
use crate::util::raster::{
    copy_image, has_size, image_rows, image_size, images_equal, pixel_at, same_image,
};

verus! {

/// The pixels of the rows before `row`, row by row.
pub open spec fn pixels_before(rows: Seq<Seq<Color>>, row: int) -> Seq<Color>
    decreases row,
{
    if row <= 0 {
        Seq::empty()
    } else {
        pixels_before(rows, row - 1) + rows[row - 1]
    }
}

/// The colours of a list in the order in which they are first met, each
/// once.
pub open spec fn first_met(colors: Seq<Color>) -> Seq<Color>
    decreases colors.len(),
{
    if colors.len() == 0 {
        Seq::empty()
    } else {
        let before = first_met(colors.drop_last());
        if before.contains(colors.last()) {
            before
        } else {
            before.push(colors.last())
        }
    }
}

/// The colours of an image, each once, in the order in which they are
/// first met when the image is read row by row.
#[must_use]
pub fn colors_in_image(image: &DynamicImage) -> (colors: Vec<Color>)
    ensures
        colors@ == first_met(pixels_before(image_rows(*image), image_rows(*image).len() as int)),
{
    let ghost rows = image_rows(*image);
    let size = image_size(image);
    let mut colors: Vec<Color> = Vec::new();
    let mut row: u32 = 0;
    while row < size.1
        invariant
            row <= size.1,
            rows == image_rows(*image),
            has_size(rows, size.0 as int, size.1 as int),
            colors@ == first_met(pixels_before(rows, row as int)),
        decreases size.1 - row,
    {
        let mut column: u32 = 0;
        assert(rows[row as int].take(0) =~= Seq::<Color>::empty());
        assert(pixels_before(rows, row as int) + Seq::<Color>::empty() =~= pixels_before(
            rows,
            row as int,
        ));
        while column < size.0
            invariant
                column <= size.0,
                row < size.1,
                rows == image_rows(*image),
                has_size(rows, size.0 as int, size.1 as int),
                colors@ == first_met(
                    pixels_before(rows, row as int) + rows[row as int].take(column as int),
                ),
            decreases size.0 - column,
        {
            let ghost seen = pixels_before(rows, row as int) + rows[row as int].take(column as int);
            assert(rows[row as int].len() == size.0);
            let color = pixel_at(image, column, row);
            proof {
                let longer = pixels_before(rows, row as int) + rows[row as int].take(column + 1);
                assert(longer.drop_last() =~= seen);
                assert(longer.last() == color);
            }
            let mut known = false;
            let mut index: usize = 0;
            while index < colors.len()
                invariant
                    index <= colors.len(),
                    known <==> exists|at: int| 0 <= at < index && colors@[at] == color,
                decreases colors.len() - index,
            {
                if colors[index] == color {
                    known = true;
                }
                index += 1;
            }
            if !known {
                colors.push(color);
            }
            column += 1;
        }
        assert(rows[row as int].take(size.0 as int) =~= rows[row as int]);
        row += 1;
    }
    colors
}

/// The runs that `lengths` divides the first `count` images into: each run
/// begins where the one before it ends, and an image belongs to a run as
/// long as it is equal to the first image of the run.
pub open spec fn runs_of(images: Seq<DynamicImage>, count: int, lengths: Seq<usize>) -> bool
    decreases count,
{
    if count <= 0 {
        lengths.len() == 0
    } else if lengths.len() == 0 {
        false
    } else {
        let last = lengths.last() as int;
        let first = count - last;
        &&& 1 <= last <= count
        &&& forall|at: int| first < at < count ==> images_equal(images[first], #[trigger] images[at])
        &&& first > 0 ==> lengths.len() >= 2 && !images_equal(
            images[first - lengths[lengths.len() - 2]],
            images[first],
        )
        &&& runs_of(images, first, lengths.drop_last())
    }
}

/// Where the run of the given number begins: after the runs before it.
pub open spec fn run_start(lengths: Seq<usize>, run: int) -> int
    decreases run,
{
    if run <= 0 {
        0
    } else {
        run_start(lengths, run - 1) + lengths[run - 1]
    }
}

/// A run begins where it began before another run was added.
proof fn lemma_run_start_stays(lengths: Seq<usize>, added: usize, run: int)
    requires
        0 <= run <= lengths.len(),
    ensures
        run_start(lengths.push(added), run) == run_start(lengths, run),
    decreases run,
{
    if run > 0 {
        lemma_run_start_stays(lengths, added, run - 1);
        assert(lengths.push(added)[run - 1] == lengths[run - 1]);
    }
}

/// `kept` holds at the given place the first frame of the run of that
/// number.
pub open spec fn first_of_run(
    images: Seq<DynamicImage>,
    lengths: Seq<usize>,
    kept: Seq<DynamicImage>,
    run: int,
) -> bool {
    0 <= run_start(lengths, run) < images.len() && image_rows(kept[run]) == image_rows(
        images[run_start(lengths, run)],
    )
}

/// `kept` holds the first frame of every run, in the order of the runs.
pub open spec fn first_of_runs(
    images: Seq<DynamicImage>,
    lengths: Seq<usize>,
    kept: Seq<DynamicImage>,
) -> bool {
    &&& kept.len() == lengths.len()
    &&& forall|run: int|
        0 <= run < kept.len() ==> #[trigger] first_of_run(images, lengths, kept, run)
}

/// Drops the frames of an animation that repeat the frame before them: a
/// frame that is equal to the first frame of the run before it belongs to
/// that run. The first frame of each run is handed back, and beside it the
/// lengths of the runs in their order. A caller who shows each frame that
/// is kept for as long as its whole run was shown has the same animation
/// with fewer frames.
#[must_use]
pub fn dedupe_images(images: &Vec<DynamicImage>) -> (kept: (Vec<DynamicImage>, Vec<usize>))
    ensures
        runs_of(images@, images.len() as int, kept.1@),
        first_of_runs(images@, kept.1@, kept.0@),
        run_start(kept.1@, kept.1.len() as int) == images.len(),
{
    let mut lengths: Vec<usize> = Vec::new();
    let mut frames: Vec<DynamicImage> = Vec::new();
    if images.len() == 0 {
        return (frames, lengths);
    }
    let mut first: usize = 0;
    let mut index: usize = 1;
    while index < images.len()
        invariant
            first < index <= images.len(),
            runs_of(images@, first as int, lengths@),
            forall|at: int|
                first < at < index ==> images_equal(images@[first as int], #[trigger] images@[at]),
            first > 0 ==> lengths.len() >= 1 && !images_equal(
                images@[first - lengths@.last()],
                images@[first as int],
            ),
            first_of_runs(images@, lengths@, frames@),
            run_start(lengths@, lengths.len() as int) == first,
        decreases images.len() - index,
    {
        if !same_image(&images[first], &images[index]) {
            let ghost before = lengths@;
            let ghost held = frames@;
            lengths.push(index - first);
            frames.push(copy_image(&images[first]));
            proof {
                assert(lengths@.drop_last() =~= before);
                lemma_run_added(images@, before, held, (index - first) as usize, frames@);
            }
            first = index;
        }
        index += 1;
    }
    let ghost before = lengths@;
    let ghost held = frames@;
    lengths.push(index - first);
    frames.push(copy_image(&images[first]));
    proof {
        assert(lengths@.drop_last() =~= before);
        lemma_run_added(images@, before, held, (index - first) as usize, frames@);
    }
    (frames, lengths)
}

/// The first frames of the runs stay the first frames when a run is added
/// with its own first frame.
proof fn lemma_run_added(
    images: Seq<DynamicImage>,
    lengths: Seq<usize>,
    kept: Seq<DynamicImage>,
    added: usize,
    longer: Seq<DynamicImage>,
)
    requires
        first_of_runs(images, lengths, kept),
        0 <= run_start(lengths, lengths.len() as int) < images.len(),
        longer.len() == kept.len() + 1,
        forall|run: int| 0 <= run < kept.len() ==> longer[run] == kept[run],
        image_rows(longer[kept.len() as int]) == image_rows(
            images[run_start(lengths, lengths.len() as int)],
        ),
    ensures
        first_of_runs(images, lengths.push(added), longer),
        run_start(lengths.push(added), lengths.len() as int + 1) == run_start(
            lengths,
            lengths.len() as int,
        ) + added,
{
    let more = lengths.push(added);
    assert forall|run: int| 0 <= run < longer.len() implies #[trigger] first_of_run(
        images,
        more,
        longer,
        run,
    ) by {
        lemma_run_start_stays(lengths, added, run);
        if run < kept.len() {
            assert(first_of_run(images, lengths, kept, run));
            assert(longer[run] == kept[run]);
        }
    }
    lemma_run_start_stays(lengths, added, lengths.len() as int);
}

/// Finds the runs of equal frames of an animation: a frame that is equal to
/// the first frame of the run before it belongs to that run. The lengths of
/// the runs are handed back in their order.
#[must_use]
pub fn dedupe_plan(images: &Vec<DynamicImage>) -> (lengths: Vec<usize>)
    ensures
        runs_of(images@, images.len() as int, lengths@),
{
    dedupe_images(images).1
}

} // verus!
