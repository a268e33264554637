//! How two frames differ, and which runs of held drawings may be smoothed.

use crate::ratio::Ratio;
use vstd::prelude::*;

verus! {

pub const RGB_CHANNEL_COUNT: usize = 3;

/// The luma difference, in 1/256 steps of one byte value, from which a pixel
/// counts as changed.
pub const DUPLICATE_PIXEL_DIFFERENCE_MIN: u32 = 1024;

/// Frames are divided into eight rows of eight tiles.
pub const DIFFERENCE_TILE_COUNT: usize = 64;

/// The largest luma difference of a pixel: 255 steps of 256.
pub const DIFFERENCE_MAX: u64 = 65280;

pub const CADENCE_RUN_FRAME_COUNT_MIN: u64 = 2;

pub const CADENCE_RUN_FRAME_COUNT_MAX: u64 = 3;

pub const CADENCE_RUN_FRAME_COUNT_INPUT_MAX: u64 = 4;

/// The processing strategy for the source material.
#[derive(Clone, Copy, Debug, Eq, PartialEq, Structural)]
pub enum ContentPreset {
    Anime,
    Movie,
}

/// What the cadence analysis has counted so far.
#[derive(Clone, Copy, Debug, Eq, PartialEq, Structural)]
pub struct CadenceDiagnostics {
    pub duplicate_frame_count: u64,
    pub cadence_run_count: u64,
    pub long_hold_count: u64,
    pub scene_cut_count: u64,
    pub inference_bypass_count: u64,
}

impl CadenceDiagnostics {
    /// Nothing counted.
    pub open spec fn none() -> CadenceDiagnostics {
        CadenceDiagnostics {
            duplicate_frame_count: 0,
            cadence_run_count: 0,
            long_hold_count: 0,
            scene_cut_count: 0,
            inference_bypass_count: 0,
        }
    }
}

impl Default for CadenceDiagnostics {
    fn default() -> (diagnostics: CadenceDiagnostics)
        ensures
            diagnostics == CadenceDiagnostics::none(),
    {
        CadenceDiagnostics {
            duplicate_frame_count: 0,
            cadence_run_count: 0,
            long_hold_count: 0,
            scene_cut_count: 0,
            inference_bypass_count: 0,
        }
    }
}

/// How two frames differ: over the whole frame, by the share of pixels that
/// changed, and in the tile that changed most. Each is a fraction of the largest
/// possible difference.
#[derive(Clone, Copy, Debug, PartialEq, Eq, Structural)]
pub struct FrameDifference {
    pub mean: Ratio,
    pub changed_pixel_ratio: Ratio,
    pub tile_mean_max: Ratio,
}

impl FrameDifference {
    /// The mean and the changed-pixel ratio lie between zero and one.
    pub open spec fn normalized(self) -> bool {
        &&& self.mean.normalized()
        &&& self.changed_pixel_ratio.normalized()
        &&& self.tile_mean_max.well_formed()
    }

    /// No difference.
    pub open spec fn none() -> FrameDifference {
        FrameDifference {
            mean: Ratio { numerator: 0, denominator: 1 },
            changed_pixel_ratio: Ratio { numerator: 0, denominator: 1 },
            tile_mean_max: Ratio { numerator: 0, denominator: 1 },
        }
    }
}

impl Default for FrameDifference {
    fn default() -> (difference: FrameDifference)
        ensures
            difference == FrameDifference::none(),
    {
        FrameDifference {
            mean: Ratio::zero(),
            changed_pixel_ratio: Ratio::zero(),
            tile_mean_max: Ratio::zero(),
        }
    }
}

/// The weighted brightness of the pixel whose bytes start at `index`.
pub open spec fn luma(frame: Seq<u8>, index: int) -> int {
    54 * frame[index] + 183 * frame[index + 1] + 19 * frame[index + 2]
}

/// The brightness difference of the pixel with the given number, counted row by
/// row.
pub open spec fn pixel_difference(before: Seq<u8>, after: Seq<u8>, pixel: int) -> int {
    let difference = luma(before, 3 * pixel) - luma(after, 3 * pixel);
    if difference < 0 {
        -difference
    } else {
        difference
    }
}

/// The tile that a pixel lies in, counted row by row.
pub open spec fn pixel_tile(width: int, height: int, pixel: int) -> int {
    (pixel / width) * 8 / height * 8 + (pixel % width) * 8 / width
}

/// The sum of `value` over the first `count` pixels.
pub open spec fn pixel_sum(value: spec_fn(int) -> int, count: nat) -> int
    decreases count,
{
    if count == 0 {
        0
    } else {
        pixel_sum(value, (count - 1) as nat) + value(count - 1)
    }
}

/// The sum of all pixel differences.
pub open spec fn difference_sum(before: Seq<u8>, after: Seq<u8>, count: nat) -> int {
    pixel_sum(|pixel: int| pixel_difference(before, after, pixel), count)
}

/// How many pixels differ enough to count as changed.
pub open spec fn changed_pixel_count(before: Seq<u8>, after: Seq<u8>, count: nat) -> int {
    pixel_sum(
        |pixel: int|
            if pixel_difference(before, after, pixel) >= DUPLICATE_PIXEL_DIFFERENCE_MIN {
                1int
            } else {
                0int
            },
        count,
    )
}

/// The sum of the pixel differences inside one tile.
pub open spec fn tile_difference_sum(
    before: Seq<u8>,
    after: Seq<u8>,
    width: int,
    height: int,
    tile: int,
    count: nat,
) -> int {
    pixel_sum(
        |pixel: int|
            if pixel_tile(width, height, pixel) == tile {
                pixel_difference(before, after, pixel)
            } else {
                0
            },
        count,
    )
}

/// How many pixels one tile has.
pub open spec fn tile_pixel_count(width: int, height: int, tile: int, count: nat) -> int {
    pixel_sum(
        |pixel: int|
            if pixel_tile(width, height, pixel) == tile {
                1int
            } else {
                0int
            },
        count,
    )
}

/// Whether a fraction is the largest of the mean differences of the tiles that
/// have pixels, or zero where no tile differs.
pub open spec fn is_largest_tile_mean(
    largest: Ratio,
    before: Seq<u8>,
    after: Seq<u8>,
    width: int,
    height: int,
    tiles: int,
) -> bool {
    let count = (width * height) as nat;
    &&& largest.well_formed()
    &&& forall|tile: int|
        0 <= tile < tiles && #[trigger] tile_pixel_count(width, height, tile, count) > 0
            ==> largest.is_at_least(
            tile_difference_sum(before, after, width, height, tile, count),
            tile_pixel_count(width, height, tile, count) * DIFFERENCE_MAX,
        )
    &&& largest == (Ratio { numerator: 0, denominator: 1 }) || exists|tile: int|
        0 <= tile < tiles && largest.numerator == tile_difference_sum(
            before,
            after,
            width,
            height,
            tile,
            count,
        ) && largest.denominator == #[trigger] tile_pixel_count(width, height, tile, count)
            * DIFFERENCE_MAX
}

/// The difference of two RGB24 frames of the given size.
pub open spec fn is_frame_difference(
    difference: FrameDifference,
    before: Seq<u8>,
    after: Seq<u8>,
    width: int,
    height: int,
) -> bool {
    let count = (width * height) as nat;
    &&& difference.mean.numerator == difference_sum(before, after, count)
    &&& difference.mean.denominator == count * DIFFERENCE_MAX
    &&& difference.changed_pixel_ratio.numerator == changed_pixel_count(before, after, count)
    &&& difference.changed_pixel_ratio.denominator == count
    &&& is_largest_tile_mean(
        difference.tile_mean_max,
        before,
        after,
        width,
        height,
        DIFFERENCE_TILE_COUNT as int,
    )
}

/// A pixel sum lies between zero and the number of pixels times the largest
/// value of one.
proof fn lemma_pixel_sum_bounded(value: spec_fn(int) -> int, count: nat, largest: int)
    requires
        forall|pixel: int| 0 <= pixel < count ==> 0 <= #[trigger] value(pixel) <= largest,
        largest >= 0,
    ensures
        0 <= pixel_sum(value, count) <= count * largest,
    decreases count,
{
    if count > 0 {
        lemma_pixel_sum_bounded(value, (count - 1) as nat, largest);
        assert((count - 1) * largest + largest == count * largest) by (nonlinear_arith);
    } else {
        assert(0 * largest == 0);
    }
}

/// A pixel sum of values that are each at most `factor` times another value is
/// at most `factor` times the sum of the others.
proof fn lemma_pixel_sum_scaled(
    value: spec_fn(int) -> int,
    other: spec_fn(int) -> int,
    factor: int,
    count: nat,
)
    requires
        forall|pixel: int|
            0 <= pixel < count ==> 0 <= #[trigger] value(pixel) <= factor * other(pixel),
    ensures
        0 <= pixel_sum(value, count) <= factor * pixel_sum(other, count),
    decreases count,
{
    if count > 0 {
        lemma_pixel_sum_scaled(value, other, factor, (count - 1) as nat);
        let rest = pixel_sum(other, (count - 1) as nat);
        let last = other(count - 1);
        assert(0 <= value(count - 1) <= factor * last);
        assert(factor * rest + factor * last == factor * (rest + last)) by (nonlinear_arith);
    } else {
        assert(factor * 0 == 0);
    }
}

proof fn lemma_pixel_difference_bounded(before: Seq<u8>, after: Seq<u8>, pixel: int)
    ensures
        0 <= pixel_difference(before, after, pixel) <= DIFFERENCE_MAX,
{
}

proof fn lemma_pixel_sums_bounded(
    before: Seq<u8>,
    after: Seq<u8>,
    width: int,
    height: int,
    tile: int,
    count: nat,
)
    ensures
        0 <= difference_sum(before, after, count) <= count * DIFFERENCE_MAX,
        0 <= changed_pixel_count(before, after, count) <= count,
        0 <= tile_pixel_count(width, height, tile, count) <= count,
        0 <= tile_difference_sum(before, after, width, height, tile, count)
            <= tile_pixel_count(width, height, tile, count) * DIFFERENCE_MAX,
{
    let difference = |pixel: int| pixel_difference(before, after, pixel);
    assert forall|pixel: int| 0 <= pixel < count implies 0 <= #[trigger] difference(pixel)
        <= DIFFERENCE_MAX by {
        lemma_pixel_difference_bounded(before, after, pixel);
    }
    lemma_pixel_sum_bounded(difference, count, DIFFERENCE_MAX as int);
    let changed = |pixel: int|
        if pixel_difference(before, after, pixel) >= DUPLICATE_PIXEL_DIFFERENCE_MIN {
            1int
        } else {
            0int
        };
    lemma_pixel_sum_bounded(changed, count, 1);
    let inside = |pixel: int|
        if pixel_tile(width, height, pixel) == tile {
            1int
        } else {
            0int
        };
    lemma_pixel_sum_bounded(inside, count, 1);
    let tile_difference = |pixel: int|
        if pixel_tile(width, height, pixel) == tile {
            pixel_difference(before, after, pixel)
        } else {
            0
        };
    assert forall|pixel: int| 0 <= pixel < count implies 0 <= #[trigger] tile_difference(pixel)
        <= (DIFFERENCE_MAX as int) * inside(pixel) by {
        lemma_pixel_difference_bounded(before, after, pixel);
    }
    lemma_pixel_sum_scaled(tile_difference, inside, DIFFERENCE_MAX as int, count);
}

/// Where a pixel of row `y` and column `x` lies in the row-by-row order.
proof fn lemma_pixel_position(width: int, height: int, x: int, y: int)
    requires
        0 <= x < width,
        0 <= y < height,
    ensures
        0 <= y * width + x < width * height,
        (y * width + x) / width == y,
        (y * width + x) % width == x,
        (y + 1) * width == y * width + width,
        0 <= x * 8 / width < 8,
        0 <= y * 8 / height < 8,
{
    vstd::arithmetic::div_mod::lemma_fundamental_div_mod_converse(y * width + x, width, y, x);
    assert(0 <= y * width + x < width * height) by (nonlinear_arith)
        requires
            0 <= x < width,
            0 <= y < height,
    ;
    assert((y + 1) * width == y * width + width) by (nonlinear_arith);
    assert(0 <= x * 8 / width < 8) by (nonlinear_arith)
        requires
            0 <= x < width,
    ;
    assert(0 <= y * 8 / height < 8) by (nonlinear_arith)
        requires
            0 <= y < height,
    ;
}

fn luma_at(frame: &[u8], index: usize) -> (value: u32)
    requires
        index + 2 < frame@.len(),
    ensures
        value == luma(frame@, index as int),
        value <= DIFFERENCE_MAX,
{
    54 * (frame[index] as u32) + 183 * (frame[index + 1] as u32) + 19 * (frame[index + 2] as u32)
}

/// Measures how two RGB24 frames of the given size differ.
pub fn measure_frame_difference_rgb24(
    frame_before: &[u8],
    frame_after: &[u8],
    width: u32,
    height: u32,
) -> (difference: FrameDifference)
    requires
        width > 0,
        height > 0,
        frame_before@.len() == width * height * 3,
        frame_after@.len() == width * height * 3,
        width * height * DIFFERENCE_MAX <= u64::MAX,
    ensures
        is_frame_difference(
            difference,
            frame_before@,
            frame_after@,
            width as int,
            height as int,
        ),
        difference.normalized(),
{
    let ghost before = frame_before@;
    let ghost after = frame_after@;
    let ghost columns = width as int;
    let ghost rows = height as int;
    let ghost total = (columns * rows) as nat;
    let frame_length: usize = frame_before.len();
    let mut sum: u64 = 0;
    let mut changed: u64 = 0;
    let mut sampled: u64 = 0;
    let mut tile_sums: Vec<u64> = vec![0; DIFFERENCE_TILE_COUNT];
    let mut tile_counts: Vec<u64> = vec![0; DIFFERENCE_TILE_COUNT];
    let mut y: u32 = 0;
    proof {
        assert(columns * rows >= 0) by (nonlinear_arith)
            requires
                columns > 0,
                rows > 0,
        ;
        assert(0 * columns == 0);
    }
    while y < height
        invariant
            y <= height,
            columns == width as int,
            rows == height as int,
            columns > 0,
            total == (columns * rows) as nat,
            columns * rows >= 0,
            total * DIFFERENCE_MAX <= u64::MAX,
            before == frame_before@,
            after == frame_after@,
            before.len() == total * 3,
            frame_length == total * 3,
            after.len() == total * 3,
            0 <= y * columns,
            sampled == y * columns,
            sum == difference_sum(before, after, sampled as nat),
            changed == changed_pixel_count(before, after, sampled as nat),
            tile_sums@.len() == DIFFERENCE_TILE_COUNT,
            tile_counts@.len() == DIFFERENCE_TILE_COUNT,
            forall|tile: int|
                0 <= tile < DIFFERENCE_TILE_COUNT ==> #[trigger] tile_sums@[tile]
                    == tile_difference_sum(before, after, columns, rows, tile, sampled as nat),
            forall|tile: int|
                0 <= tile < DIFFERENCE_TILE_COUNT ==> #[trigger] tile_counts@[tile]
                    == tile_pixel_count(columns, rows, tile, sampled as nat),
        decreases height - y,
    {
        let mut x: u32 = 0;
        while x < width
            invariant
                y < height,
                x <= width,
                columns == width as int,
                rows == height as int,
                total == (columns * rows) as nat,
                columns * rows >= 0,
                total * DIFFERENCE_MAX <= u64::MAX,
                before == frame_before@,
                after == frame_after@,
                before.len() == total * 3,
                frame_length == total * 3,
                after.len() == total * 3,
                0 <= y * columns,
                sampled == y * columns + x,
                sum == difference_sum(before, after, sampled as nat),
                changed == changed_pixel_count(before, after, sampled as nat),
                tile_sums@.len() == DIFFERENCE_TILE_COUNT,
                tile_counts@.len() == DIFFERENCE_TILE_COUNT,
                forall|tile: int|
                    0 <= tile < DIFFERENCE_TILE_COUNT ==> #[trigger] tile_sums@[tile]
                        == tile_difference_sum(before, after, columns, rows, tile, sampled as nat),
                forall|tile: int|
                    0 <= tile < DIFFERENCE_TILE_COUNT ==> #[trigger] tile_counts@[tile]
                        == tile_pixel_count(columns, rows, tile, sampled as nat),
            decreases width - x,
        {
            let ghost pixel = sampled as int;
            proof {
                lemma_pixel_position(columns, rows, x as int, y as int);
            }
            let index: usize = sampled as usize * RGB_CHANNEL_COUNT;
            let before_luma: u32 = luma_at(frame_before, index);
            let after_luma: u32 = luma_at(frame_after, index);
            let difference: u32 = if before_luma >= after_luma {
                before_luma - after_luma
            } else {
                after_luma - before_luma
            };
            let tile_x: u64 = (x as u64) * 8 / (width as u64);
            let tile_y: u64 = (y as u64) * 8 / (height as u64);
            let tile_index: usize = (tile_y * 8 + tile_x) as usize;
            proof {
                assert(difference == pixel_difference(before, after, pixel));
                assert(tile_index == pixel_tile(columns, rows, pixel));
                lemma_pixel_sums_bounded(
                    before,
                    after,
                    columns,
                    rows,
                    tile_index as int,
                    sampled as nat,
                );
                assert(sampled * DIFFERENCE_MAX + DIFFERENCE_MAX <= total * DIFFERENCE_MAX);
            }
            let ghost sums_before = tile_sums@;
            let ghost counts_before = tile_counts@;
            sum = sum + difference as u64;
            if difference >= DUPLICATE_PIXEL_DIFFERENCE_MIN {
                changed = changed + 1;
            }
            let tile_sum: u64 = tile_sums[tile_index] + difference as u64;
            tile_sums.set(tile_index, tile_sum);
            let tile_count: u64 = tile_counts[tile_index] + 1;
            tile_counts.set(tile_index, tile_count);
            sampled = sampled + 1;
            proof {
                assert forall|tile: int| 0 <= tile < DIFFERENCE_TILE_COUNT implies #[trigger] tile_sums@[tile]
                    == tile_difference_sum(before, after, columns, rows, tile, sampled as nat) by {
                    assert(sums_before[tile] == tile_difference_sum(
                        before,
                        after,
                        columns,
                        rows,
                        tile,
                        pixel as nat,
                    ));
                }
                assert forall|tile: int| 0 <= tile < DIFFERENCE_TILE_COUNT implies #[trigger] tile_counts@[tile]
                    == tile_pixel_count(columns, rows, tile, sampled as nat) by {
                    assert(counts_before[tile] == tile_pixel_count(
                        columns,
                        rows,
                        tile,
                        pixel as nat,
                    ));
                }
            }
            x = x + 1;
        }
        proof {
            lemma_pixel_position(columns, rows, 0, y as int);
        }
        y = y + 1;
    }
    proof {
        assert(rows * columns == columns * rows) by (nonlinear_arith);
        lemma_pixel_sums_bounded(before, after, columns, rows, 0, total);
        assert(total > 0) by (nonlinear_arith)
            requires
                total == columns * rows,
                columns > 0,
                rows > 0,
        ;
    }
    let mut largest: Ratio = Ratio::zero();
    let mut tile: usize = 0;
    while tile < DIFFERENCE_TILE_COUNT
        invariant
            tile <= DIFFERENCE_TILE_COUNT,
            columns == width as int,
            rows == height as int,
            total == (columns * rows) as nat,
            total * DIFFERENCE_MAX <= u64::MAX,
            sampled == total,
            tile_sums@.len() == DIFFERENCE_TILE_COUNT,
            tile_counts@.len() == DIFFERENCE_TILE_COUNT,
            forall|t: int|
                0 <= t < DIFFERENCE_TILE_COUNT ==> #[trigger] tile_sums@[t] == tile_difference_sum(
                    before,
                    after,
                    columns,
                    rows,
                    t,
                    total,
                ),
            forall|t: int|
                0 <= t < DIFFERENCE_TILE_COUNT ==> #[trigger] tile_counts@[t] == tile_pixel_count(
                    columns,
                    rows,
                    t,
                    total,
                ),
            is_largest_tile_mean(largest, before, after, columns, rows, tile as int),
        decreases DIFFERENCE_TILE_COUNT - tile,
    {
        let ghost previous = largest;
        let tile_count: u64 = tile_counts[tile];
        proof {
            lemma_pixel_sums_bounded(before, after, columns, rows, tile as int, total);
        }
        if tile_count > 0 {
            let tile_mean = Ratio {
                numerator: tile_sums[tile],
                denominator: tile_count * DIFFERENCE_MAX,
            };
            if !tile_mean.at_most(&largest) {
                largest = tile_mean;
                proof {
                    assert forall|t: int|
                        0 <= t < tile && #[trigger] tile_pixel_count(columns, rows, t, total)
                            > 0 implies largest.is_at_least(
                        tile_difference_sum(before, after, columns, rows, t, total),
                        tile_pixel_count(columns, rows, t, total) * DIFFERENCE_MAX,
                    ) by {
                        lemma_larger_fraction(
                            largest,
                            previous,
                            tile_difference_sum(before, after, columns, rows, t, total),
                            tile_pixel_count(columns, rows, t, total) * DIFFERENCE_MAX,
                        );
                    }
                    assert(largest.is_at_least(
                        largest.numerator as int,
                        largest.denominator as int,
                    ));
                }
            }
        }
        tile = tile + 1;
    }
    FrameDifference {
        mean: Ratio { numerator: sum, denominator: sampled * DIFFERENCE_MAX },
        changed_pixel_ratio: Ratio { numerator: changed, denominator: sampled },
        tile_mean_max: largest,
    }
}

/// A fraction above another is at least whatever the other is at least.
proof fn lemma_larger_fraction(larger: Ratio, smaller: Ratio, numerator: int, denominator: int)
    requires
        larger.well_formed(),
        smaller.well_formed(),
        denominator > 0,
        !larger.is_at_most(smaller.numerator as int, smaller.denominator as int),
        smaller.is_at_least(numerator, denominator),
    ensures
        larger.is_at_least(numerator, denominator),
{
    let a = larger.numerator as int;
    let b = larger.denominator as int;
    let c = smaller.numerator as int;
    let d = smaller.denominator as int;
    assert(a * denominator >= numerator * b) by (nonlinear_arith)
        requires
            b > 0,
            d > 0,
            denominator > 0,
            a * d > c * b,
            c * denominator >= numerator * d,
    ;
}

/// The largest mean difference of a confident duplicate: 0.006.
pub open spec fn duplicate_mean_limit() -> Ratio {
    Ratio { numerator: 6, denominator: 1000 }
}

/// The largest share of changed pixels of a confident duplicate: 0.005.
pub open spec fn duplicate_changed_pixel_limit() -> Ratio {
    Ratio { numerator: 5, denominator: 1000 }
}

/// The largest tile difference of a confident duplicate: 0.01.
pub open spec fn duplicate_tile_limit() -> Ratio {
    Ratio { numerator: 1, denominator: 100 }
}

/// The mean difference from which two frames belong to different scenes: 0.15.
pub open spec fn scene_threshold() -> Ratio {
    Ratio { numerator: 15, denominator: 100 }
}

/// Whether one fraction is at most another.
pub open spec fn ratio_at_most(left: Ratio, right: Ratio) -> bool {
    left.is_at_most(right.numerator as int, right.denominator as int)
}

/// A held drawing: the whole frame, its changed pixels and its tiles all differ
/// by no more than their limits.
pub open spec fn confident_duplicate(difference: FrameDifference) -> bool {
    &&& ratio_at_most(difference.mean, duplicate_mean_limit())
    &&& ratio_at_most(difference.changed_pixel_ratio, duplicate_changed_pixel_limit())
    &&& ratio_at_most(difference.tile_mean_max, duplicate_tile_limit())
}

/// A shot boundary: the frames differ by at least the scene threshold.
pub open spec fn scene_change(difference: FrameDifference) -> bool {
    ratio_at_most(scene_threshold(), difference.mean)
}

/// Runs of two or three frames may be smoothed.
pub open spec fn smoothable_cadence_run(frame_count: int) -> bool {
    CADENCE_RUN_FRAME_COUNT_MIN <= frame_count <= CADENCE_RUN_FRAME_COUNT_MAX
}

/// Whether a run of held frames is short enough, and long enough, to be smoothed.
pub fn is_smoothable_cadence_run(cadence_run_frame_count: u64) -> (smoothable: bool)
    requires
        0 < cadence_run_frame_count <= CADENCE_RUN_FRAME_COUNT_INPUT_MAX,
    ensures
        smoothable == smoothable_cadence_run(cadence_run_frame_count as int),
{
    CADENCE_RUN_FRAME_COUNT_MIN <= cadence_run_frame_count && cadence_run_frame_count
        <= CADENCE_RUN_FRAME_COUNT_MAX
}

/// Whether a difference is small enough in every respect to be a held drawing.
pub fn is_confident_duplicate(difference: FrameDifference) -> (duplicate: bool)
    requires
        difference.mean.normalized(),
        difference.changed_pixel_ratio.normalized(),
    ensures
        duplicate == confident_duplicate(difference),
{
    difference.mean.at_most(&Ratio { numerator: 6, denominator: 1000 })
        && difference.changed_pixel_ratio.at_most(&Ratio { numerator: 5, denominator: 1000 })
        && difference.tile_mean_max.at_most(&Ratio { numerator: 1, denominator: 100 })
}

/// Whether a difference is a shot boundary.
pub fn is_scene_change(difference: &FrameDifference) -> (change: bool)
    ensures
        change == scene_change(*difference),
{
    difference.mean.at_least(&Ratio { numerator: 15, denominator: 100 })
}

/// Whether one frame holds the drawing of another: their difference is within every
/// limit, over the whole frame, by changed pixels, and in every tile.
pub open spec fn holds_drawing(before: Seq<u8>, after: Seq<u8>, width: int, height: int) -> bool {
    let count = (width * height) as nat;
    &&& difference_sum(before, after, count) * 1000 <= 6 * (count * DIFFERENCE_MAX)
    &&& changed_pixel_count(before, after, count) * 1000 <= 5 * count
    &&& forall|tile: int|
        0 <= tile < DIFFERENCE_TILE_COUNT && #[trigger] tile_pixel_count(
            width,
            height,
            tile,
            count,
        ) > 0 ==> tile_difference_sum(before, after, width, height, tile, count) * 100
            <= tile_pixel_count(width, height, tile, count) * DIFFERENCE_MAX
}

/// Whether one frame begins another shot than the other: their difference is at least
/// the scene threshold.
pub open spec fn begins_shot(before: Seq<u8>, after: Seq<u8>, width: int, height: int) -> bool {
    let count = (width * height) as nat;
    15 * (count * DIFFERENCE_MAX) <= difference_sum(before, after, count) * 100
}

/// What two frames are to each other is decided by the frames alone, however their
/// difference is written as fractions.
pub proof fn frames_decide_their_difference(
    difference: FrameDifference,
    before: Seq<u8>,
    after: Seq<u8>,
    width: int,
    height: int,
)
    requires
        is_frame_difference(difference, before, after, width, height),
    ensures
        confident_duplicate(difference) == holds_drawing(before, after, width, height),
        scene_change(difference) == begins_shot(before, after, width, height),
{
    let count = (width * height) as nat;
    let largest = difference.tile_mean_max;
    let numerator = largest.numerator as int;
    let denominator = largest.denominator as int;
    if ratio_at_most(largest, duplicate_tile_limit()) {
        assert forall|tile: int|
            0 <= tile < DIFFERENCE_TILE_COUNT && #[trigger] tile_pixel_count(
                width,
                height,
                tile,
                count,
            ) > 0 implies tile_difference_sum(before, after, width, height, tile, count) * 100
            <= tile_pixel_count(width, height, tile, count) * DIFFERENCE_MAX by {
            let sum = tile_difference_sum(before, after, width, height, tile, count);
            let full = tile_pixel_count(width, height, tile, count) * DIFFERENCE_MAX;
            assert(largest.is_at_least(sum, full));
            assert(sum * 100 <= full) by (nonlinear_arith)
                requires
                    numerator * full >= sum * denominator,
                    numerator * 100 <= denominator,
                    denominator > 0,
                    full > 0,
            ;
        }
    }
}

/// A confident duplicate is never a shot boundary.
pub proof fn duplicates_are_no_scene_changes(difference: FrameDifference)
    requires
        difference.mean.well_formed(),
        confident_duplicate(difference),
    ensures
        !scene_change(difference),
{
}

/// Identical frames are a confident duplicate.
pub proof fn identical_frames_are_duplicates(
    difference: FrameDifference,
    frame: Seq<u8>,
    width: int,
    height: int,
)
    requires
        width > 0,
        height > 0,
        is_frame_difference(difference, frame, frame, width, height),
    ensures
        confident_duplicate(difference),
{
    let count = (width * height) as nat;
    lemma_zero_sum(|pixel: int| pixel_difference(frame, frame, pixel), count);
    lemma_zero_sum(
        |pixel: int|
            if pixel_difference(frame, frame, pixel) >= DUPLICATE_PIXEL_DIFFERENCE_MIN {
                1int
            } else {
                0int
            },
        count,
    );
    assert forall|tile: int|
        #[trigger] tile_pixel_count(width, height, tile, count) >= 0 implies tile_difference_sum(
        frame,
        frame,
        width,
        height,
        tile,
        count,
    ) == 0 by {
        lemma_zero_sum(
            |pixel: int|
                if pixel_tile(width, height, pixel) == tile {
                    pixel_difference(frame, frame, pixel)
                } else {
                    0
                },
            count,
        );
    }
}

proof fn lemma_zero_sum(value: spec_fn(int) -> int, count: nat)
    requires
        forall|pixel: int| 0 <= pixel < count ==> #[trigger] value(pixel) == 0,
    ensures
        pixel_sum(value, count) == 0,
    decreases count,
{
    if count > 0 {
        lemma_zero_sum(value, (count - 1) as nat);
        assert(value(count - 1) == 0);
    }
}

proof fn lemma_equal_sums(left: spec_fn(int) -> int, right: spec_fn(int) -> int, count: nat)
    requires
        forall|pixel: int| 0 <= pixel < count ==> #[trigger] left(pixel) == right(pixel),
    ensures
        pixel_sum(left, count) == pixel_sum(right, count),
    decreases count,
{
    if count > 0 {
        lemma_equal_sums(left, right, (count - 1) as nat);
        assert(left(count - 1) == right(count - 1));
    }
}

/// The order of the two frames does not matter.
pub proof fn difference_is_symmetric(
    difference: FrameDifference,
    before: Seq<u8>,
    after: Seq<u8>,
    width: int,
    height: int,
)
    requires
        is_frame_difference(difference, before, after, width, height),
    ensures
        is_frame_difference(difference, after, before, width, height),
{
    let count = (width * height) as nat;
    lemma_equal_sums(
        |pixel: int| pixel_difference(before, after, pixel),
        |pixel: int| pixel_difference(after, before, pixel),
        count,
    );
    lemma_equal_sums(
        |pixel: int|
            if pixel_difference(before, after, pixel) >= DUPLICATE_PIXEL_DIFFERENCE_MIN {
                1int
            } else {
                0int
            },
        |pixel: int|
            if pixel_difference(after, before, pixel) >= DUPLICATE_PIXEL_DIFFERENCE_MIN {
                1int
            } else {
                0int
            },
        count,
    );
    assert forall|tile: int|
        #![trigger tile_pixel_count(width, height, tile, count)]
        tile_difference_sum(before, after, width, height, tile, count) == tile_difference_sum(
            after,
            before,
            width,
            height,
            tile,
            count,
        ) by {
        lemma_equal_sums(
            |pixel: int|
                if pixel_tile(width, height, pixel) == tile {
                    pixel_difference(before, after, pixel)
                } else {
                    0
                },
            |pixel: int|
                if pixel_tile(width, height, pixel) == tile {
                    pixel_difference(after, before, pixel)
                } else {
                    0
                },
            count,
        );
    }
}

/// A pixel sum in which one pixel alone has a value is that value.
proof fn lemma_single_value_sum(value: spec_fn(int) -> int, count: nat, only: int)
    requires
        0 <= only,
        forall|pixel: int| 0 <= pixel < count && pixel != only ==> #[trigger] value(pixel) == 0,
    ensures
        pixel_sum(value, count) == if only < count {
            value(only)
        } else {
            0
        },
    decreases count,
{
    if count > 0 {
        lemma_single_value_sum(value, (count - 1) as nat, only);
        assert(count - 1 != only ==> value(count - 1) == 0);
    }
}

/// A pixel sum of values that are each the sum of two others is the sum of their sums.
proof fn lemma_added_sums(
    value: spec_fn(int) -> int,
    left: spec_fn(int) -> int,
    right: spec_fn(int) -> int,
    count: nat,
)
    requires
        forall|pixel: int|
            0 <= pixel < count ==> #[trigger] value(pixel) == left(pixel) + right(pixel),
    ensures
        pixel_sum(value, count) == pixel_sum(left, count) + pixel_sum(right, count),
    decreases count,
{
    if count > 0 {
        lemma_added_sums(value, left, right, (count - 1) as nat);
        assert(value(count - 1) == left(count - 1) + right(count - 1));
    }
}

/// A pixel sum of values that are each `factor` times another is `factor` times the sum
/// of the others.
proof fn lemma_multiplied_sum(
    value: spec_fn(int) -> int,
    other: spec_fn(int) -> int,
    factor: int,
    count: nat,
)
    requires
        forall|pixel: int|
            0 <= pixel < count ==> #[trigger] value(pixel) == factor * other(pixel),
    ensures
        pixel_sum(value, count) == factor * pixel_sum(other, count),
    decreases count,
{
    if count > 0 {
        lemma_multiplied_sum(value, other, factor, (count - 1) as nat);
        let rest = pixel_sum(other, (count - 1) as nat);
        let last = other(count - 1);
        assert(value(count - 1) == factor * last);
        assert(factor * rest + factor * last == factor * (rest + last)) by (nonlinear_arith);
    } else {
        assert(factor * 0 == 0);
    }
}

proof fn lemma_ones(count: nat)
    ensures
        pixel_sum(|pixel: int| 1int, count) == count,
    decreases count,
{
    if count > 0 {
        lemma_ones((count - 1) as nat);
    }
}

proof fn lemma_pixel_count_positive(width: int, height: int)
    requires
        width > 0,
        height > 0,
    ensures
        width * height > 0,
{
    assert(width * height > 0) by (nonlinear_arith)
        requires
            width > 0,
            height > 0,
    ;
}

/// Every channel of a pixel counts with its own weight: where two frames differ in one
/// pixel alone, by some steps of red, green and blue, their difference is 54, 183 and 19
/// times those steps together, whatever the frames show. The pixel is changed from a
/// difference of 1024 on, and the tile that it lies in is the one that changed most.
pub proof fn channels_count_by_their_weights(
    difference: FrameDifference,
    before: Seq<u8>,
    after: Seq<u8>,
    width: int,
    height: int,
    pixel: int,
)
    requires
        width > 0,
        height > 0,
        before.len() == width * height * 3,
        after.len() == width * height * 3,
        0 <= pixel < width * height,
        forall|index: int|
            0 <= index < before.len() && index / 3 != pixel ==> #[trigger] before[index]
                == after[index],
        is_frame_difference(difference, before, after, width, height),
    ensures
        ({
            let red = before[3 * pixel] - after[3 * pixel];
            let green = before[3 * pixel + 1] - after[3 * pixel + 1];
            let blue = before[3 * pixel + 2] - after[3 * pixel + 2];
            let change = 54 * red + 183 * green + 19 * blue;
            &&& difference.mean.numerator == change || difference.mean.numerator == -change
            &&& difference.mean.denominator == width * height * 65280
            &&& difference.changed_pixel_ratio.numerator == if -1024 < change < 1024 {
                0int
            } else {
                1int
            }
            &&& difference.changed_pixel_ratio.denominator == width * height
            &&& change != 0 ==> difference.tile_mean_max.numerator == difference.mean.numerator
        }),
{
    lemma_pixel_count_positive(width, height);
    let count = (width * height) as nat;
    assert forall|other: int| 0 <= other < count && other != pixel implies #[trigger]
        pixel_difference(before, after, other) == 0 by {
        assert((3 * other) / 3 == other && (3 * other + 1) / 3 == other && (3 * other + 2) / 3
            == other);
        assert(before[3 * other] == after[3 * other]);
        assert(before[3 * other + 1] == after[3 * other + 1]);
        assert(before[3 * other + 2] == after[3 * other + 2]);
    }
    lemma_single_value_sum(
        |other: int| pixel_difference(before, after, other),
        count,
        pixel,
    );
    lemma_single_value_sum(
        |other: int|
            if pixel_difference(before, after, other) >= DUPLICATE_PIXEL_DIFFERENCE_MIN {
                1int
            } else {
                0int
            },
        count,
        pixel,
    );
    assert forall|tile: int|
        #![trigger tile_pixel_count(width, height, tile, count)]
        tile_difference_sum(before, after, width, height, tile, count) == if pixel_tile(
            width,
            height,
            pixel,
        ) == tile {
            pixel_difference(before, after, pixel)
        } else {
            0
        } by {
        lemma_single_value_sum(
            |other: int|
                if pixel_tile(width, height, other) == tile {
                    pixel_difference(before, after, other)
                } else {
                    0
                },
            count,
            pixel,
        );
    }
    let x = pixel % width;
    let y = pixel / width;
    vstd::arithmetic::div_mod::lemma_fundamental_div_mod(pixel, width);
    vstd::arithmetic::div_mod::lemma_mod_bound(pixel, width);
    assert(0 <= y < height) by (nonlinear_arith)
        requires
            pixel == width * y + x,
            0 <= x < width,
            0 <= pixel < width * height,
    ;
    assert(width * y == y * width) by (nonlinear_arith);
    lemma_pixel_position(width, height, x, y);
    let tile = pixel_tile(width, height, pixel);
    assert(0 <= tile < DIFFERENCE_TILE_COUNT);
    lemma_tile_has_its_pixels(width, height, tile, count, pixel);
    let largest = difference.tile_mean_max;
    let change = pixel_difference(before, after, pixel);
    if change > 0 {
        let full = tile_pixel_count(width, height, tile, count) * DIFFERENCE_MAX;
        assert(largest.is_at_least(change, full));
        let numerator = largest.numerator as int;
        let denominator = largest.denominator as int;
        assert(numerator > 0) by (nonlinear_arith)
            requires
                numerator * full >= change * denominator,
                change > 0,
                denominator > 0,
                full > 0,
                numerator >= 0,
        ;
    }
}

/// A tile that a pixel lies in has pixels.
proof fn lemma_tile_has_its_pixels(width: int, height: int, tile: int, count: nat, pixel: int)
    requires
        0 <= pixel < count,
        pixel_tile(width, height, pixel) == tile,
    ensures
        tile_pixel_count(width, height, tile, count) > 0,
    decreases count,
{
    let inside = |other: int|
        if pixel_tile(width, height, other) == tile {
            1int
        } else {
            0int
        };
    lemma_pixel_sum_bounded(inside, (count - 1) as nat, 1);
    assert(pixel_sum(inside, count) == pixel_sum(inside, (count - 1) as nat) + inside(count - 1));
    if pixel < count - 1 {
        lemma_tile_has_its_pixels(width, height, tile, (count - 1) as nat, pixel);
    }
}

/// Changes in different pixels add up: where no pixel changes both from the first frame
/// to the second and from the second to the third, the first and the third differ by both
/// differences together, and as many pixels have changed.
pub proof fn changes_in_different_pixels_add_up(
    first_third: FrameDifference,
    first_second: FrameDifference,
    second_third: FrameDifference,
    first: Seq<u8>,
    second: Seq<u8>,
    third: Seq<u8>,
    width: int,
    height: int,
)
    requires
        width > 0,
        height > 0,
        is_frame_difference(first_third, first, third, width, height),
        is_frame_difference(first_second, first, second, width, height),
        is_frame_difference(second_third, second, third, width, height),
        forall|pixel: int|
            #![trigger first[3 * pixel]]
            #![trigger second[3 * pixel]]
            #![trigger third[3 * pixel]]
            0 <= pixel < width * height ==> {
                ||| first[3 * pixel] == second[3 * pixel] && first[3 * pixel + 1] == second[3
                    * pixel + 1] && first[3 * pixel + 2] == second[3 * pixel + 2]
                ||| second[3 * pixel] == third[3 * pixel] && second[3 * pixel + 1] == third[3
                    * pixel + 1] && second[3 * pixel + 2] == third[3 * pixel + 2]
            },
    ensures
        first_third.mean.numerator == first_second.mean.numerator + second_third.mean.numerator,
        first_third.changed_pixel_ratio.numerator == first_second.changed_pixel_ratio.numerator
            + second_third.changed_pixel_ratio.numerator,
{
    lemma_pixel_count_positive(width, height);
    let count = (width * height) as nat;
    let whole = |pixel: int| pixel_difference(first, third, pixel);
    let earlier = |pixel: int| pixel_difference(first, second, pixel);
    let later = |pixel: int| pixel_difference(second, third, pixel);
    assert forall|pixel: int| 0 <= pixel < count implies #[trigger] whole(pixel) == earlier(pixel)
        + later(pixel) by {
        assert(first[3 * pixel] == first[3 * pixel]);
    }
    lemma_added_sums(whole, earlier, later, count);
    let whole_changed = |pixel: int|
        if pixel_difference(first, third, pixel) >= DUPLICATE_PIXEL_DIFFERENCE_MIN {
            1int
        } else {
            0int
        };
    let earlier_changed = |pixel: int|
        if pixel_difference(first, second, pixel) >= DUPLICATE_PIXEL_DIFFERENCE_MIN {
            1int
        } else {
            0int
        };
    let later_changed = |pixel: int|
        if pixel_difference(second, third, pixel) >= DUPLICATE_PIXEL_DIFFERENCE_MIN {
            1int
        } else {
            0int
        };
    assert forall|pixel: int| 0 <= pixel < count implies #[trigger] whole_changed(pixel)
        == earlier_changed(pixel) + later_changed(pixel) by {
        assert(first[3 * pixel] == first[3 * pixel]);
    }
    lemma_added_sums(whole_changed, earlier_changed, later_changed, count);
}

/// The tiles are eight rows of eight: the tile of a pixel has a row and a column, and the
/// pixel lies in that eighth of the height and in that eighth of the width.
pub proof fn tiles_are_eighths_of_the_frame(width: int, height: int, x: int, y: int)
    requires
        0 <= x < width,
        0 <= y < height,
    ensures
        ({
            let tile = pixel_tile(width, height, y * width + x);
            let row = tile / 8;
            let column = tile % 8;
            &&& 0 <= tile < 64
            &&& row * height <= 8 * y < (row + 1) * height
            &&& column * width <= 8 * x < (column + 1) * width
        }),
{
    lemma_pixel_position(width, height, x, y);
    let row = y * 8 / height;
    let column = x * 8 / width;
    lemma_eighth(y, height);
    lemma_eighth(x, width);
    assert(pixel_tile(width, height, y * width + x) == row * 8 + column);
}

proof fn lemma_eighth(position: int, length: int)
    requires
        0 <= position < length,
    ensures
        (position * 8 / length) * length <= 8 * position < (position * 8 / length + 1) * length,
{
    let part = position * 8 / length;
    vstd::arithmetic::div_mod::lemma_fundamental_div_mod(position * 8, length);
    vstd::arithmetic::div_mod::lemma_mod_bound(position * 8, length);
    assert(part * length == length * part) by (nonlinear_arith);
    assert((part + 1) * length == part * length + length) by (nonlinear_arith);
}

/// Frames that differ in every pixel by the same steps of red, green and blue are a shot
/// boundary from a weighted difference of 9792 on, which is fifteen hundredths of the
/// largest, and a held drawing up to one of 391, which is six thousandths of it.
pub proof fn even_changes_are_judged_by_their_size(
    difference: FrameDifference,
    before: Seq<u8>,
    after: Seq<u8>,
    width: int,
    height: int,
    red: int,
    green: int,
    blue: int,
)
    requires
        width > 0,
        height > 0,
        is_frame_difference(difference, before, after, width, height),
        forall|pixel: int|
            #![trigger before[3 * pixel]]
            #![trigger after[3 * pixel]]
            0 <= pixel < width * height ==> before[3 * pixel] - after[3 * pixel] == red
                && before[3 * pixel + 1] - after[3 * pixel + 1] == green && before[3 * pixel + 2]
                - after[3 * pixel + 2] == blue,
    ensures
        ({
            let change = 54 * red + 183 * green + 19 * blue;
            &&& scene_change(difference) <==> change >= 9792 || change <= -9792
            &&& confident_duplicate(difference) <==> -391 <= change <= 391
            &&& difference.mean.numerator * 65280 == difference.mean.denominator * if change < 0 {
                -change
            } else {
                change
            }
            &&& difference.tile_mean_max.numerator * 65280 == difference.tile_mean_max.denominator
                * if change < 0 {
                -change
            } else {
                change
            }
        }),
{
    lemma_pixel_count_positive(width, height);
    let count = (width * height) as nat;
    let signed = 54 * red + 183 * green + 19 * blue;
    let change = if signed < 0 {
        -signed
    } else {
        signed
    };
    assert forall|pixel: int| 0 <= pixel < count implies #[trigger] pixel_difference(
        before,
        after,
        pixel,
    ) == change by {
        assert(before[3 * pixel] - after[3 * pixel] == red);
    }
    let one = |pixel: int| 1int;
    lemma_ones(count);
    lemma_multiplied_sum(|pixel: int| pixel_difference(before, after, pixel), one, change, count);
    let changed = if change >= 1024 {
        1int
    } else {
        0int
    };
    lemma_multiplied_sum(
        |pixel: int|
            if pixel_difference(before, after, pixel) >= DUPLICATE_PIXEL_DIFFERENCE_MIN {
                1int
            } else {
                0int
            },
        one,
        changed,
        count,
    );
    assert forall|tile: int|
        #![trigger tile_pixel_count(width, height, tile, count)]
        tile_difference_sum(before, after, width, height, tile, count) == change
            * tile_pixel_count(width, height, tile, count) by {
        lemma_multiplied_sum(
            |pixel: int|
                if pixel_tile(width, height, pixel) == tile {
                    pixel_difference(before, after, pixel)
                } else {
                    0
                },
            |pixel: int|
                if pixel_tile(width, height, pixel) == tile {
                    1int
                } else {
                    0int
                },
            change,
            count,
        );
    }
    frames_decide_their_difference(difference, before, after, width, height);
    let sum = difference_sum(before, after, count);
    assert(sum == change * count);
    assert(sum * 65280 == (count * 65280) * change) by (nonlinear_arith)
        requires
            sum == change * count,
    ;
    let largest = difference.tile_mean_max;
    let numerator = largest.numerator as int;
    let denominator = largest.denominator as int;
    if largest == (Ratio { numerator: 0, denominator: 1 }) {
        lemma_pixel_position(width, height, 0, 0);
        assert(0 * width + 0 == 0);
        let tile = pixel_tile(width, height, 0);
        lemma_tile_has_its_pixels(width, height, tile, count, 0);
        let pixels = tile_pixel_count(width, height, tile, count);
        assert(largest.is_at_least(change * pixels, pixels * DIFFERENCE_MAX));
        assert(change == 0) by (nonlinear_arith)
            requires
                0 * (pixels * 65280) >= (change * pixels) * 1,
                pixels > 0,
                change >= 0,
        ;
    } else {
        let tile = choose|tile: int|
            0 <= tile < DIFFERENCE_TILE_COUNT && largest.numerator == tile_difference_sum(
                before,
                after,
                width,
                height,
                tile,
                count,
            ) && largest.denominator == #[trigger] tile_pixel_count(width, height, tile, count)
                * DIFFERENCE_MAX;
        let pixels = tile_pixel_count(width, height, tile, count);
        assert(numerator * 65280 == denominator * change) by (nonlinear_arith)
            requires
                numerator == change * pixels,
                denominator == pixels * 65280,
        ;
    }
    assert(begins_shot(before, after, width, height) <==> change >= 9792) by (nonlinear_arith)
        requires
            count > 0,
            sum == change * count,
            begins_shot(before, after, width, height) <==> 15 * (count * 65280) <= sum * 100,
    ;
    if change <= 391 {
        assert(sum * 1000 <= 6 * (count * 65280)) by (nonlinear_arith)
            requires
                count > 0,
                change <= 391,
                sum == change * count,
        ;
        assert(changed_pixel_count(before, after, count) == 0);
        assert forall|tile: int|
            0 <= tile < DIFFERENCE_TILE_COUNT && #[trigger] tile_pixel_count(
                width,
                height,
                tile,
                count,
            ) > 0 implies tile_difference_sum(before, after, width, height, tile, count) * 100
            <= tile_pixel_count(width, height, tile, count) * DIFFERENCE_MAX by {
            let pixels = tile_pixel_count(width, height, tile, count);
            assert((change * pixels) * 100 <= pixels * 65280) by (nonlinear_arith)
                requires
                    pixels > 0,
                    0 <= change <= 391,
            ;
        }
    } else {
        assert(sum * 1000 > 6 * (count * 65280)) by (nonlinear_arith)
            requires
                count > 0,
                change >= 392,
                sum == change * count,
        ;
    }
}

/// A held drawing differs by six thousandths at most, in one of two hundred pixels at
/// most, and by a hundredth in every tile; a shot boundary by three twentieths at least.
pub proof fn differences_are_judged_by_their_shares(difference: FrameDifference)
    ensures
        confident_duplicate(difference) <==> {
            &&& 500 * difference.mean.numerator <= 3 * difference.mean.denominator
            &&& 200 * difference.changed_pixel_ratio.numerator
                <= difference.changed_pixel_ratio.denominator
            &&& 100 * difference.tile_mean_max.numerator <= difference.tile_mean_max.denominator
        },
        scene_change(difference) <==> 20 * difference.mean.numerator >= 3
            * difference.mean.denominator,
{
}

/// A difference that is judged a held drawing stays one where every share becomes
/// smaller, and one that is judged a shot boundary stays one where the mean grows.
pub proof fn judgements_follow_the_difference(smaller: FrameDifference, larger: FrameDifference)
    requires
        smaller.normalized(),
        larger.normalized(),
        smaller.mean.denominator == larger.mean.denominator,
        smaller.changed_pixel_ratio.denominator == larger.changed_pixel_ratio.denominator,
        smaller.tile_mean_max.denominator == larger.tile_mean_max.denominator,
        smaller.mean.numerator <= larger.mean.numerator,
        smaller.changed_pixel_ratio.numerator <= larger.changed_pixel_ratio.numerator,
        smaller.tile_mean_max.numerator <= larger.tile_mean_max.numerator,
    ensures
        confident_duplicate(larger) ==> confident_duplicate(smaller),
        scene_change(smaller) ==> scene_change(larger),
{
}

/// Runs that may be smoothed are those of two and of three frames.
pub proof fn runs_of_two_or_three_are_smoothed(frame_count: int)
    ensures
        smoothable_cadence_run(frame_count) <==> frame_count == 2 || frame_count == 3,
{
}

} // verus!
