//! A genome read as a square grid, and the four triangular quadrants of
//! that grid.
//!
//! A grid of side `side` holds the cell `(x, y)` at storage index
//! `y * side + x`. Each quadrant is a wedge that is widest along one edge of
//! the grid and narrows towards the centre: with `half = side / 2`, it is made
//! of the `half` rows `k = 0, 1, ..`, and row `k` runs over the positions
//! `k ..= side - 1 - k` along the edge, at depth `k` from it.
//!
//! The side of the grid of a genome is the floor of the square root of its
//! length. Where the length is no square, the units past `side * side` lie
//! outside the grid: no quadrant reaches them.

use vstd::prelude::*;
use crate::gene::Genome;

verus! {

/// A Quadrant defines a specific subset of the Square.
#[derive(Debug, Clone, Copy, PartialEq, Eq, Structural)]
pub enum Quadrant {
    TopTriangularQuadrant,
    BottomTriangularQuadrant,
    RightTriangularQuadrant,
    LeftTriangularQuadrant,
}

/// The largest `r` with `r * r <= n`.
pub open spec fn floor_sqrt(n: nat) -> nat
    decreases n,
{
    if n == 0 {
        0
    } else {
        let r = floor_sqrt((n - 1) as nat);
        if (r + 1) * (r + 1) <= n {
            r + 1
        } else {
            r
        }
    }
}

/// `floor_sqrt(n)` squared is at most `n`, and the next square is above `n`.
pub proof fn floor_sqrt_bounds(n: nat)
    ensures
        floor_sqrt(n) * floor_sqrt(n) <= n,
        n < (floor_sqrt(n) + 1) * (floor_sqrt(n) + 1),
    decreases n,
{
    if n > 0 {
        floor_sqrt_bounds((n - 1) as nat);
        let r = floor_sqrt((n - 1) as nat);
        if (r + 1) * (r + 1) <= n {
            assert(floor_sqrt(n) == r + 1);
            assert((r + 1) * (r + 1) < (r + 1 + 1) * (r + 1 + 1)) by (nonlinear_arith);
        } else {
            assert(floor_sqrt(n) == r);
        }
    } else {
        assert(floor_sqrt(n) == 0);
        assert((0 + 1) * (0 + 1) == 1) by (nonlinear_arith);
    }
}

/// The root of a number is at most the number.
pub proof fn floor_sqrt_le(n: nat)
    ensures
        floor_sqrt(n) <= n,
{
    floor_sqrt_bounds(n);
    let r = floor_sqrt(n);
    assert(r <= r * r) by (nonlinear_arith);
}

/// Only one number lies between the two bounds of `floor_sqrt_bounds`.
pub proof fn floor_sqrt_unique(n: nat, r: nat)
    requires
        r * r <= n,
        n < (r + 1) * (r + 1),
    ensures
        r == floor_sqrt(n),
{
    floor_sqrt_bounds(n);
    let s = floor_sqrt(n);
    if r < s {
        assert((r + 1) * (r + 1) <= s * s) by (nonlinear_arith)
            requires
                r + 1 <= s,
        ;
    } else if s < r {
        assert((s + 1) * (s + 1) <= r * r) by (nonlinear_arith)
            requires
                s + 1 <= r,
        ;
    }
}

/// The floor of the square root of `n`, found by bisection.
pub fn integer_sqrt(n: usize) -> (root: usize)
    ensures
        root == floor_sqrt(n as nat),
{
    let mut low: usize = 0;
    let mut high: usize = n;
    assert(0 * 0 <= n);
    assert(n < (n + 1) * (n + 1)) by (nonlinear_arith);
    while low < high
        invariant
            low <= high <= n,
            low * low <= n,
            n < (high + 1) * (high + 1),
        decreases high - low,
    {
        let middle: usize = high - (high - low) / 2;
        let quotient: usize = n / middle;
        proof {
            vstd::arithmetic::div_mod::lemma_fundamental_div_mod(n as int, middle as int);
            vstd::arithmetic::div_mod::lemma_mod_bound(n as int, middle as int);
        }
        if middle <= quotient {
            assert(middle * middle <= n) by (nonlinear_arith)
                requires
                    middle <= quotient,
                    n == middle * quotient + (n as int % middle as int),
                    0 <= n as int % middle as int,
            ;
            low = middle;
        } else {
            assert(n < middle * middle) by (nonlinear_arith)
                requires
                    quotient + 1 <= middle,
                    n == middle * quotient + (n as int % middle as int),
                    (n as int % middle as int) < middle,
            ;
            high = middle - 1;
        }
    }
    proof {
        floor_sqrt_unique(n as nat, low as nat);
    }
    low
}

/// The storage index of the cell `at = (x, y)` in a grid of side `side`.
pub open spec fn cell_index(side: nat, at: (usize, usize)) -> int {
    at.1 * side + at.0
}

/// Whether the cell `(x, y)` of a grid of side `side` lies in `quadrant`.
pub open spec fn in_wedge(quadrant: Quadrant, side: int, x: int, y: int) -> bool {
    let half = side / 2;
    match quadrant {
        Quadrant::BottomTriangularQuadrant => 0 <= y < half && y <= x <= side - 1 - y,
        Quadrant::TopTriangularQuadrant => side - half <= y < side && side - 1 - y <= x <= y,
        Quadrant::LeftTriangularQuadrant => 0 <= x < half && x <= y <= side - 1 - x,
        Quadrant::RightTriangularQuadrant => side - half <= x < side && side - 1 - x <= y <= x,
    }
}

/// How deep the cell `(x, y)` lies in from the quadrant's edge.
spec fn depth(quadrant: Quadrant, side: int, x: int, y: int) -> int {
    match quadrant {
        Quadrant::BottomTriangularQuadrant => y,
        Quadrant::TopTriangularQuadrant => side - 1 - y,
        Quadrant::LeftTriangularQuadrant => x,
        Quadrant::RightTriangularQuadrant => side - 1 - x,
    }
}

/// Where the cell `(x, y)` lies along the quadrant's edge.
spec fn position_along(quadrant: Quadrant, x: int, y: int) -> int {
    match quadrant {
        Quadrant::BottomTriangularQuadrant => x,
        Quadrant::TopTriangularQuadrant => x,
        Quadrant::LeftTriangularQuadrant => y,
        Quadrant::RightTriangularQuadrant => y,
    }
}

/// The cell at depth `row` from the quadrant's edge and at position `col`
/// along it.
pub open spec fn place(quadrant: Quadrant, side: usize, row: int, col: int) -> (usize, usize) {
    match quadrant {
        Quadrant::BottomTriangularQuadrant => (col as usize, row as usize),
        Quadrant::TopTriangularQuadrant => (col as usize, (side - 1 - row) as usize),
        Quadrant::LeftTriangularQuadrant => (row as usize, col as usize),
        Quadrant::RightTriangularQuadrant => ((side - 1 - row) as usize, col as usize),
    }
}

/// Row `row` of a quadrant: the positions `row ..= side - 1 - row`, in order.
pub open spec fn wedge_row(quadrant: Quadrant, side: usize, row: int) -> Seq<(usize, usize)> {
    Seq::new((side - 2 * row) as nat, |c: int| place(quadrant, side, row, row + c))
}

/// The first `rows` rows of a quadrant, one after the other.
pub open spec fn wedge_rows(quadrant: Quadrant, side: usize, rows: nat) -> Seq<(usize, usize)>
    decreases rows,
{
    if rows == 0 {
        Seq::empty()
    } else {
        wedge_rows(quadrant, side, (rows - 1) as nat) + wedge_row(quadrant, side, rows - 1)
    }
}

/// The cells of a quadrant in the order in which they are listed: row by
/// row from the edge inwards, each row by rising position.
pub open spec fn quadrant_indices(quadrant: Quadrant, side: usize) -> Seq<(usize, usize)> {
    wedge_rows(quadrant, side, (side / 2) as nat)
}

/// Whether the storage index `position` belongs to a cell of `quadrant`.
pub open spec fn covers(quadrant: Quadrant, side: int, position: int) -> bool {
    &&& side > 0
    &&& 0 <= position < side * side
    &&& in_wedge(quadrant, side, position % side, position / side)
}

/// Whether one of the first `count` cells of `indices` has the storage
/// index `position`.
spec fn painted(side: usize, indices: Seq<(usize, usize)>, count: int, position: int) -> bool {
    exists|i: int| 0 <= i < count && cell_index(side as nat, #[trigger] indices[i]) == position
}

/// A type whose units can be read as a square grid.
pub trait Square<T: Copy> {
    /// The units in storage order.
    spec fn cells(&self) -> Seq<T>;

    /// The side of the grid.
    spec fn grid_side(&self) -> usize;

    /// The grid never holds more cells than there are units.
    proof fn grid_fits(&self)
        ensures
            self.grid_side() * self.grid_side() <= self.cells().len(),
    ;

    /// The side of the grid.
    fn side_length(&self) -> (side: usize)
        ensures
            side == self.grid_side(),
    ;

    /// The unit of the cell `at = (x, y)`.
    fn get(&self, at: (usize, usize)) -> (unit: &T)
        requires
            cell_index(self.grid_side() as nat, at) < self.cells().len(),
        ensures
            *unit == self.cells()[cell_index(self.grid_side() as nat, at)],
    ;

    /// Puts `value` into the cell `at = (x, y)`.
    fn set(&mut self, at: (usize, usize), value: T)
        requires
            cell_index(old(self).grid_side() as nat, at) < old(self).cells().len(),
        ensures
            final(self).cells() == old(self).cells().update(
                cell_index(old(self).grid_side() as nat, at),
                value,
            ),
            final(self).grid_side() == old(self).grid_side(),
    ;

    /// The units of a quadrant, in the order of `quadrant_indices`.
    fn get_quadrant(&self, quadrant: Quadrant) -> (units: Vec<&T>)
        ensures
            units.len() == quadrant_indices(quadrant, self.grid_side()).len(),
            forall|i: int|
                0 <= i < units.len() ==> *#[trigger] units[i] == self.cells()[cell_index(
                    self.grid_side() as nat,
                    quadrant_indices(quadrant, self.grid_side())[i],
                )],
    {
        let side = self.side_length();
        let indices = Self::get_quadrant_indices(quadrant, side);
        let mut result: Vec<&T> = Vec::new();
        let mut k: usize = 0;
        while k < indices.len()
            invariant
                k <= indices.len(),
                side == self.grid_side(),
                indices@ == quadrant_indices(quadrant, side),
                result.len() == k,
                forall|i: int|
                    0 <= i < k ==> *#[trigger] result[i] == self.cells()[cell_index(
                        side as nat,
                        indices[i],
                    )],
            decreases indices.len() - k,
        {
            let at = indices[k];
            proof {
                assert(indices@.contains(at));
                quadrant_contains(quadrant, side, at);
                cell_index_in_grid(side, at);
                self.grid_fits();
            }
            result.push(self.get(at));
            k += 1;
        }
        result
    }

    /// Puts `value` into every cell of a quadrant and leaves the other
    /// units as they are.
    fn set_quadrant(&mut self, quadrant: Quadrant, value: T)
        ensures
            final(self).cells().len() == old(self).cells().len(),
            final(self).grid_side() == old(self).grid_side(),
            forall|p: int|
                0 <= p < old(self).cells().len() ==> #[trigger] final(self).cells()[p] == (if covers(
                    quadrant,
                    old(self).grid_side() as int,
                    p,
                ) {
                    value
                } else {
                    old(self).cells()[p]
                }),
    {
        let side = self.side_length();
        let indices = Self::get_quadrant_indices(quadrant, side);
        let mut k: usize = 0;
        while k < indices.len()
            invariant
                k <= indices.len(),
                side == old(self).grid_side(),
                self.grid_side() == side,
                indices@ == quadrant_indices(quadrant, side),
                self.cells().len() == old(self).cells().len(),
                forall|p: int|
                    0 <= p < self.cells().len() ==> #[trigger] self.cells()[p] == if painted(
                        side,
                        indices@,
                        k as int,
                        p,
                    ) {
                        value
                    } else {
                        old(self).cells()[p]
                    },
            decreases indices.len() - k,
        {
            let at = indices[k];
            proof {
                assert(indices@.contains(at));
                quadrant_contains(quadrant, side, at);
                cell_index_in_grid(side, at);
                self.grid_fits();
            }
            let ghost before = self.cells();
            self.set(at, value);
            proof {
                let target = cell_index(side as nat, at);
                assert forall|p: int| 0 <= p < self.cells().len() implies #[trigger] self.cells()[p]
                    == if painted(side, indices@, k + 1, p) {
                    value
                } else {
                    old(self).cells()[p]
                } by {
                    if p == target {
                        assert(cell_index(side as nat, indices@[k as int]) == p);
                    } else {
                        assert(self.cells()[p] == before[p]);
                        if painted(side, indices@, k + 1, p) {
                            let i = choose|i: int|
                                0 <= i < k + 1 && cell_index(side as nat, #[trigger] indices@[i]) == p;
                            assert(i < k);
                        }
                    }
                }
            }
            k += 1;
        }
        proof {
            assert forall|p: int| 0 <= p < old(self).cells().len() implies (covers(
                quadrant,
                side as int,
                p,
            ) <==> painted(side, indices@, indices.len() as int, p)) by {
                quadrant_covers(quadrant, side, p);
            }
        }
    }

    /// The cells of a quadrant of a grid of side `side_length`.
    fn get_quadrant_indices(quadrant: Quadrant, side_length: usize) -> (indices: Vec<(usize, usize)>)
        ensures
            indices@ == quadrant_indices(quadrant, side_length),
    {
        let half = side_length / 2;
        let mut result: Vec<(usize, usize)> = Vec::new();
        let mut i: usize = 0;
        while i < half
            invariant
                i <= half,
                half == side_length / 2,
                result@ == wedge_rows(quadrant, side_length, i as nat),
            decreases half - i,
        {
            let ghost row = wedge_row(quadrant, side_length, i as int);
            let ghost before = result@;
            let mut j: usize = i;
            while j < side_length - i
                invariant
                    i < half,
                    half == side_length / 2,
                    i <= j <= side_length - i,
                    row == wedge_row(quadrant, side_length, i as int),
                    result@ == before + row.take(j - i),
                decreases side_length - i - j,
            {
                let cell = match quadrant {
                    Quadrant::TopTriangularQuadrant => (j, side_length - 1 - i),
                    Quadrant::BottomTriangularQuadrant => (j, i),
                    Quadrant::RightTriangularQuadrant => (side_length - 1 - i, j),
                    Quadrant::LeftTriangularQuadrant => (i, j),
                };
                result.push(cell);
                proof {
                    assert(cell == row[j - i]);
                    assert(row.take(j - i).push(cell) =~= row.take(j - i + 1));
                    assert(result@ =~= before + row.take(j + 1 - i));
                }
                j += 1;
            }
            proof {
                assert(row.take(side_length - 2 * i) =~= row);
            }
            i += 1;
        }
        result
    }
}

impl<T: Copy> Square<T> for Genome<T> {
    open spec fn cells(&self) -> Seq<T> {
        self@
    }

    open spec fn grid_side(&self) -> usize {
        floor_sqrt(self@.len()) as usize
    }

    proof fn grid_fits(&self) {
        assert(self@.len() == self.len());
        floor_sqrt_bounds(self@.len());
        floor_sqrt_le(self@.len());
    }

    /// The floor of the square root of the length. Where the length is no
    /// square, the units past `side * side` belong to no cell.
    fn side_length(&self) -> (side: usize) {
        proof {
            floor_sqrt_le(self@.len());
        }
        integer_sqrt(self.len())
    }

    fn get(&self, at: (usize, usize)) -> (unit: &T) {
        let (x, y) = at;
        let width = self.side_length();
        assert(0 <= y * width) by (nonlinear_arith);
        assert(cell_index(width as nat, at) == y * width + x);
        assert(self@.len() == self.len());
        &self[y * width + x]
    }

    fn set(&mut self, at: (usize, usize), value: T) {
        let (x, y) = at;
        let width = self.side_length();
        assert(0 <= y * width) by (nonlinear_arith);
        assert(cell_index(width as nat, at) == y * width + x);
        assert(self@.len() == self.len());
        self[y * width + x] = value;
    }
}

/// A quadrant of a grid of side `side` lists `half * side - half * (half - 1)`
/// cells, where `half = side / 2`.
pub proof fn quadrant_size(quadrant: Quadrant, side: usize)
    ensures
        quadrant_indices(quadrant, side).len() == (side / 2) * side - (side / 2) * (side / 2 - 1),
{
    wedge_rows_len(quadrant, side, (side / 2) as nat);
}

/// The listed cells of a quadrant are exactly the cells of its wedge, and
/// all of them lie inside the grid.
pub proof fn quadrant_contains(quadrant: Quadrant, side: usize, at: (usize, usize))
    ensures
        quadrant_indices(quadrant, side).contains(at) <==> in_wedge(
            quadrant,
            side as int,
            at.0 as int,
            at.1 as int,
        ),
        quadrant_indices(quadrant, side).contains(at) ==> at.0 < side && at.1 < side,
{
    wedge_rows_contains(quadrant, side, (side / 2) as nat, at);
}

/// No cell is listed twice in a quadrant.
pub proof fn quadrant_cells_distinct(quadrant: Quadrant, side: usize)
    ensures
        quadrant_indices(quadrant, side).no_duplicates(),
{
    wedge_rows_distinct(quadrant, side, (side / 2) as nat);
}

/// Opposite quadrants share no cell.
pub proof fn opposite_quadrants_disjoint(side: usize, at: (usize, usize))
    ensures
        !(quadrant_indices(Quadrant::TopTriangularQuadrant, side).contains(at) && quadrant_indices(
            Quadrant::BottomTriangularQuadrant,
            side,
        ).contains(at)),
        !(quadrant_indices(Quadrant::LeftTriangularQuadrant, side).contains(at) && quadrant_indices(
            Quadrant::RightTriangularQuadrant,
            side,
        ).contains(at)),
{
    quadrant_contains(Quadrant::TopTriangularQuadrant, side, at);
    quadrant_contains(Quadrant::BottomTriangularQuadrant, side, at);
    quadrant_contains(Quadrant::LeftTriangularQuadrant, side, at);
    quadrant_contains(Quadrant::RightTriangularQuadrant, side, at);
}

/// Together the four quadrants hold every cell of the grid but the centre
/// of a grid of odd side.
pub proof fn quadrants_cover(side: usize, at: (usize, usize))
    requires
        at.0 < side,
        at.1 < side,
    ensures
        (exists|quadrant: Quadrant|
            quadrant_indices(quadrant, side).contains(at)) <==> !(side % 2 == 1 && at.0 == side / 2
            && at.1 == side / 2),
{
    quadrant_contains(Quadrant::TopTriangularQuadrant, side, at);
    quadrant_contains(Quadrant::BottomTriangularQuadrant, side, at);
    quadrant_contains(Quadrant::LeftTriangularQuadrant, side, at);
    quadrant_contains(Quadrant::RightTriangularQuadrant, side, at);
    if exists|quadrant: Quadrant| quadrant_indices(quadrant, side).contains(at) {
        let quadrant = choose|quadrant: Quadrant| quadrant_indices(quadrant, side).contains(at);
        quadrant_contains(quadrant, side, at);
    }
}

/// Quadrants of neighbouring edges share the cells of the diagonal between
/// them, and no other: for the bottom and the left edge, the cells `(k, k)`
/// with `k < side / 2`.
pub proof fn neighbouring_quadrants_meet(side: usize, at: (usize, usize))
    ensures
        quadrant_indices(Quadrant::BottomTriangularQuadrant, side).contains(at) && quadrant_indices(
            Quadrant::LeftTriangularQuadrant,
            side,
        ).contains(at) <==> at.0 == at.1 && at.0 < side / 2,
{
    quadrant_contains(Quadrant::BottomTriangularQuadrant, side, at);
    quadrant_contains(Quadrant::LeftTriangularQuadrant, side, at);
}

/// A cell inside the grid has a storage index below `side * side`, and the
/// index gives the cell back.
pub proof fn cell_index_in_grid(side: usize, at: (usize, usize))
    requires
        at.0 < side,
        at.1 < side,
    ensures
        0 <= cell_index(side as nat, at) < side * side,
        cell_index(side as nat, at) % (side as int) == at.0,
        cell_index(side as nat, at) / (side as int) == at.1,
{
    let (x, y) = (at.0 as int, at.1 as int);
    let s = side as int;
    assert(0 <= y * s && y * s + x < s * s) by (nonlinear_arith)
        requires
            0 <= x < s,
            0 <= y < s,
    ;
    vstd::arithmetic::div_mod::lemma_fundamental_div_mod_converse(y * s + x, s, y, x);
}

/// A storage index is that of a listed cell exactly when the quadrant
/// covers it.
pub proof fn quadrant_covers(quadrant: Quadrant, side: usize, position: int)
    ensures
        covers(quadrant, side as int, position) <==> exists|i: int|
            0 <= i < quadrant_indices(quadrant, side).len() && cell_index(
                side as nat,
                #[trigger] quadrant_indices(quadrant, side)[i],
            ) == position,
{
    let cells = quadrant_indices(quadrant, side);
    let s = side as int;
    if covers(quadrant, s, position) {
        let x = position % s;
        let y = position / s;
        vstd::arithmetic::div_mod::lemma_fundamental_div_mod(position, s);
        vstd::arithmetic::div_mod::lemma_mod_bound(position, s);
        assert(0 <= y < s) by (nonlinear_arith)
            requires
                0 <= position < s * s,
                position == s * y + x,
                0 <= x < s,
        ;
        let at = (x as usize, y as usize);
        quadrant_contains(quadrant, side, at);
        let i = choose|i: int| 0 <= i < cells.len() && cells[i] == at;
        assert(s * y == y * s) by (nonlinear_arith);
        assert(cell_index(side as nat, cells[i]) == position);
    }
    if exists|i: int| 0 <= i < cells.len() && cell_index(side as nat, #[trigger] cells[i]) == position {
        let i = choose|i: int| 0 <= i < cells.len() && cell_index(side as nat, #[trigger] cells[i]) == position;
        let at = cells[i];
        assert(cells.contains(at));
        quadrant_contains(quadrant, side, at);
        cell_index_in_grid(side, at);
    }
}

/// The number of cells in the first `rows` rows, for `rows <= side / 2`.
proof fn wedge_rows_len(quadrant: Quadrant, side: usize, rows: nat)
    requires
        rows <= side / 2,
    ensures
        wedge_rows(quadrant, side, rows).len() == rows * side - rows * (rows - 1),
    decreases rows,
{
    if rows > 0 {
        wedge_rows_len(quadrant, side, (rows - 1) as nat);
        assert(rows * side - rows * (rows - 1) == (rows - 1) * side - (rows - 1) * (rows - 2) + (
        side - 2 * (rows - 1))) by (nonlinear_arith);
    } else {
        assert(0 * side - 0 * (0 - 1) == 0) by (nonlinear_arith);
    }
}

/// A cell is listed among the first `rows` rows exactly when it lies in the
/// quadrant at a depth below `rows`.
proof fn wedge_rows_contains(quadrant: Quadrant, side: usize, rows: nat, at: (usize, usize))
    requires
        rows <= side / 2,
    ensures
        wedge_rows(quadrant, side, rows).contains(at) <==> in_wedge(
            quadrant,
            side as int,
            at.0 as int,
            at.1 as int,
        ) && depth(quadrant, side as int, at.0 as int, at.1 as int) < rows,
    decreases rows,
{
    if rows > 0 {
        let before = wedge_rows(quadrant, side, (rows - 1) as nat);
        let row = wedge_row(quadrant, side, rows - 1);
        wedge_rows_contains(quadrant, side, (rows - 1) as nat, at);
        let d = depth(quadrant, side as int, at.0 as int, at.1 as int);
        let along = position_along(quadrant, at.0 as int, at.1 as int);
        if (before + row).contains(at) {
            let i = choose|i: int| 0 <= i < (before + row).len() && (before + row)[i] == at;
            if i < before.len() {
                assert(before[i] == at);
            } else {
                assert(row[i - before.len()] == at);
            }
        }
        if in_wedge(quadrant, side as int, at.0 as int, at.1 as int) && d < rows {
            if d < rows - 1 {
                let i = choose|i: int| 0 <= i < before.len() && before[i] == at;
                assert((before + row)[i] == at);
            } else {
                assert(row[along - d] == at);
                assert((before + row)[before.len() + along - d] == at);
            }
        }
    }
}

/// No cell is listed twice among the first `rows` rows.
proof fn wedge_rows_distinct(quadrant: Quadrant, side: usize, rows: nat)
    requires
        rows <= side / 2,
    ensures
        wedge_rows(quadrant, side, rows).no_duplicates(),
    decreases rows,
{
    if rows > 0 {
        let before = wedge_rows(quadrant, side, (rows - 1) as nat);
        let row = wedge_row(quadrant, side, rows - 1);
        wedge_rows_distinct(quadrant, side, (rows - 1) as nat);
        assert forall|i: int, j: int|
            0 <= i < (before + row).len() && 0 <= j < (before + row).len() && i != j implies (before
            + row)[i] != (before + row)[j] by {
            if i < before.len() && j >= before.len() {
                assert(before.contains(before[i]));
                wedge_rows_contains(quadrant, side, (rows - 1) as nat, before[i]);
                assert((before + row)[j] == row[j - before.len()]);
            } else if j < before.len() && i >= before.len() {
                assert(before.contains(before[j]));
                wedge_rows_contains(quadrant, side, (rows - 1) as nat, before[j]);
                assert((before + row)[i] == row[i - before.len()]);
            } else if i >= before.len() {
                assert((before + row)[i] == row[i - before.len()]);
                assert((before + row)[j] == row[j - before.len()]);
            }
        }
    }
}

} // verus!
