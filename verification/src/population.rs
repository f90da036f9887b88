//! Costs of colours, the steering signal of a genome of colours, and
//! genomes with a fixed pattern.

use vstd::prelude::*;
use crate::blob::RGB;
use crate::gene::Genome;
use crate::square::{
    cell_index, floor_sqrt, integer_sqrt, quadrant_indices, quadrant_size, Quadrant, Square,
};

verus! {

/// Below this value in every channel a colour counts as dark.
pub const DARKNESS_THRESHOLD: u8 = 15;

/// The largest value of a channel.
pub const CHANNEL_MAX: u128 = 255;

/// Whether every channel of the colour lies below the darkness threshold.
pub open spec fn is_dark(color: RGB) -> bool {
    color.r < DARKNESS_THRESHOLD && color.g < DARKNESS_THRESHOLD && color.b < DARKNESS_THRESHOLD
}

/// The cost of a colour where darkness is wanted: 0 for a dark colour and 1
/// for any other.
pub fn _black_costs(color: &RGB) -> (cost: i64)
    ensures
        cost == (if is_dark(*color) {
            0int
        } else {
            1int
        }),
{
    let threshold: u8 = DARKNESS_THRESHOLD;
    if color.r < threshold && color.g < threshold && color.b < threshold {
        0
    } else {
        1
    }
}

/// The fitness of a colour where darkness is wanted: 1 for a dark colour
/// and 0 for any other.
pub fn rate(color: &RGB) -> (fitness: i64)
    ensures
        fitness == (if is_dark(*color) {
            1int
        } else {
            0int
        }),
{
    let threshold: u8 = DARKNESS_THRESHOLD;
    if color.r < threshold && color.g < threshold && color.b < threshold {
        1
    } else {
        0
    }
}

/// The cost of a colour where red is wanted: -1 where red is more than four
/// times green and blue together, and 0 for any other colour.
pub fn _red_ratio(color: &RGB) -> (cost: i64)
    ensures
        cost == (if color.r > 4 * (color.g + color.b) {
            -1int
        } else {
            0int
        }),
{
    if color.r as u16 > 4 * (color.g as u16 + color.b as u16) {
        -1
    } else {
        0
    }
}

/// A direction and a speed as the exact vector `(x / scale, y / scale)`,
/// with x growing to the right and y growing to the top. A `scale` of 0
/// stands for a genome too small to have quadrants: it gives no vector.
#[derive(Debug, Clone, Copy, PartialEq, Eq, Structural)]
pub struct Velocity {
    pub x: i128,
    pub y: i128,
    pub scale: u128,
}

/// What a colour adds to the pull of its quadrant: red counts for it,
/// green and blue against it.
pub open spec fn pull(color: RGB) -> int {
    color.r - color.g - color.b
}

/// The summed pull of the first `count` listed cells of a grid of side
/// `side` over the units `cells`.
pub open spec fn pull_of_cells(cells: Seq<RGB>, side: usize, listed: Seq<(usize, usize)>, count: nat) -> int
    decreases count,
{
    if count == 0 {
        0
    } else {
        pull_of_cells(cells, side, listed, (count - 1) as nat) + pull(
            cells[cell_index(side as nat, listed[count - 1])],
        )
    }
}

/// The summed pull of a quadrant of the genome.
pub open spec fn quadrant_pull(genome: Genome<RGB>, quadrant: Quadrant) -> int {
    let listed = quadrant_indices(quadrant, genome.grid_side());
    pull_of_cells(genome@, genome.grid_side(), listed, listed.len())
}

/// Derives a direction and a speed from the colours of the genome: the
/// pull of each quadrant, over 255 times the number of its cells, weighs
/// the unit vector that points to the quadrant's edge, and the four
/// weighted vectors are added up. Each weight lies between -2 and 1, so
/// neither part of the vector leaves -3 ..= 3.
pub fn extract_velocity(genome: &Genome<RGB>) -> (velocity: Velocity)
    ensures
        velocity.x == quadrant_pull(*genome, Quadrant::RightTriangularQuadrant) - quadrant_pull(
            *genome,
            Quadrant::LeftTriangularQuadrant,
        ),
        velocity.y == quadrant_pull(*genome, Quadrant::TopTriangularQuadrant) - quadrant_pull(
            *genome,
            Quadrant::BottomTriangularQuadrant,
        ),
        velocity.scale == quadrant_indices(
            Quadrant::RightTriangularQuadrant,
            genome.grid_side(),
        ).len() * CHANNEL_MAX,
        -3 * velocity.scale <= velocity.x <= 3 * velocity.scale,
        -3 * velocity.scale <= velocity.y <= 3 * velocity.scale,
{
    let (right, cell_count) = weigh_quadrant(genome, Quadrant::RightTriangularQuadrant);
    let (top, _) = weigh_quadrant(genome, Quadrant::TopTriangularQuadrant);
    let (left, _) = weigh_quadrant(genome, Quadrant::LeftTriangularQuadrant);
    let (bottom, _) = weigh_quadrant(genome, Quadrant::BottomTriangularQuadrant);
    proof {
        quadrant_size(Quadrant::RightTriangularQuadrant, genome.grid_side());
        quadrant_size(Quadrant::TopTriangularQuadrant, genome.grid_side());
        quadrant_size(Quadrant::LeftTriangularQuadrant, genome.grid_side());
        quadrant_size(Quadrant::BottomTriangularQuadrant, genome.grid_side());
    }
    Velocity { x: right - left, y: top - bottom, scale: cell_count as u128 * CHANNEL_MAX }
}

/// The summed pull of the first `count` of the given units.
pub open spec fn pull_of_units(units: Seq<&RGB>, count: nat) -> int
    decreases count,
{
    if count == 0 {
        0
    } else {
        pull_of_units(units, (count - 1) as nat) + pull(*units[count - 1])
    }
}

/// Sums the pull of the given units.
fn sum_pull(units: &Vec<&RGB>) -> (sum: i128)
    ensures
        sum == pull_of_units(units@, units@.len()),
{
    let mut sum: i128 = 0;
    let mut at: usize = 0;
    while at < units.len()
        invariant
            at <= units.len(),
            sum == pull_of_units(units@, at as nat),
            -510 * at <= sum <= 255 * at,
        decreases units.len() - at,
    {
        let color = units[at];
        sum = sum + (color.r as i128 - color.g as i128 - color.b as i128);
        at += 1;
    }
    sum
}

/// The summed pull of a quadrant of the genome.
fn weigh_quadrant(genome: &Genome<RGB>, quadrant: Quadrant) -> (weighed: (i128, usize))
    ensures
        weighed.0 == quadrant_pull(*genome, quadrant),
        weighed.1 == quadrant_indices(quadrant, genome.grid_side()).len(),
        -510 * weighed.1 <= weighed.0 <= 255 * weighed.1,
{
    let units = genome.get_quadrant(quadrant);
    let sum = sum_pull(&units);
    proof {
        let listed = quadrant_indices(quadrant, genome.grid_side());
        pull_of_units_is_pull_of_cells(units@, genome@, genome.grid_side(), listed, listed.len());
        pull_bounds(units@, units@.len());
    }
    (sum, units.len())
}

/// Units that are the units of the listed cells have the pull of those
/// cells.
proof fn pull_of_units_is_pull_of_cells(
    units: Seq<&RGB>,
    cells: Seq<RGB>,
    side: usize,
    listed: Seq<(usize, usize)>,
    count: nat,
)
    requires
        count <= units.len(),
        forall|i: int| 0 <= i < count ==> *#[trigger] units[i] == cells[cell_index(side as nat, listed[i])],
    ensures
        pull_of_units(units, count) == pull_of_cells(cells, side, listed, count),
    decreases count,
{
    if count > 0 {
        pull_of_units_is_pull_of_cells(units, cells, side, listed, (count - 1) as nat);
    }
}

/// A summed pull lies between -510 and 255 times the number of units.
proof fn pull_bounds(units: Seq<&RGB>, count: nat)
    ensures
        -510 * count <= pull_of_units(units, count) <= 255 * count,
    decreases count,
{
    if count > 0 {
        pull_bounds(units, (count - 1) as nat);
    }
}

/// The colour of the first row of a runner.
pub open spec fn red() -> RGB {
    RGB { r: 255, g: 0, b: 0 }
}

/// The colour of everything else.
pub open spec fn black() -> RGB {
    RGB { r: 0, g: 0, b: 0 }
}

/// A genome of `size` units whose first grid row is red and whose other
/// units are black.
pub fn create_runner(size: usize) -> (genome: Genome<RGB>)
    ensures
        genome@.len() == size,
        forall|i: int|
            0 <= i < size ==> #[trigger] genome@[i] == (if i < floor_sqrt(size as nat) {
                red()
            } else {
                black()
            }),
{
    let root = integer_sqrt(size);
    let mut genome: Genome<RGB> = Vec::new();
    let mut i: usize = 0;
    while i < size
        invariant
            i <= size,
            root == floor_sqrt(size as nat),
            genome@.len() == i,
            forall|k: int|
                0 <= k < i ==> #[trigger] genome@[k] == (if k < root {
                    red()
                } else {
                    black()
                }),
        decreases size - i,
    {
        if i < root {
            genome.push(RGB { r: 255, g: 0, b: 0 });
        } else {
            genome.push(RGB { r: 0, g: 0, b: 0 });
        }
        i += 1;
    }
    genome
}

/// A genome of `size` black units.
pub fn create_black(size: usize) -> (genome: Genome<RGB>)
    ensures
        genome@.len() == size,
        forall|i: int| 0 <= i < size ==> #[trigger] genome@[i] == black(),
{
    let mut genome: Genome<RGB> = Vec::new();
    let mut i: usize = 0;
    while i < size
        invariant
            i <= size,
            genome@.len() == i,
            forall|k: int| 0 <= k < i ==> #[trigger] genome@[k] == black(),
        decreases size - i,
    {
        genome.push(RGB { r: 0, g: 0, b: 0 });
        i += 1;
    }
    genome
}

} // verus!
