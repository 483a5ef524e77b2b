//! The grid: a flat, row-major buffer of cells together with the
//! 3D-coordinate / flat-index mapping and neighbor enumeration.

use vstd::prelude::*;

verus! {

use crate::rule::Neighbourhood;
use vstd::arithmetic::div_mod::lemma_fundamental_div_mod_converse;
use vstd::arithmetic::div_mod::lemma_multiply_divide_lt;

/// One cell: an alive flag and a decay counter.
///
/// `state` counts down by one on each generation a dead cell stays unborn,
/// saturating at zero; any cell that is alive after a step carries the
/// rule's configured state value.
#[derive(Clone, Copy, PartialEq, Eq, Structural, Debug)]
pub struct Cell {
    pub alive: bool,
    pub state: u8,
}

/// Failures reported by construction and index conversion.
#[derive(Clone, Copy, PartialEq, Eq, Structural, Debug)]
pub enum GridError {
    /// A grid extent is zero.
    InvalidDimensions,
    /// A supplied initial pattern's length differs from the grid volume.
    DimensionMismatch,
    /// A flat index or coordinate lies outside the grid.
    IndexOutOfBounds,
}

/// A fixed-size 3D grid stored as a flat cell buffer in row-major order:
/// the cell at `(x, y, z)` sits at flat index `x + y*x_len + z*x_len*y_len`.
#[derive(Debug)]
pub struct Grid {
    pub x_len: usize,
    pub y_len: usize,
    pub z_len: usize,
    pub cells: Vec<Cell>,
}

/// The row-major flattening formula.
pub open spec fn flat_index_spec(x: int, y: int, z: int, x_len: int, y_len: int) -> int {
    x + y * x_len + z * x_len * y_len
}

/// The inverse of the flattening formula: the coordinates a flat index
/// addresses, as `(x, y, z)`.
pub open spec fn coords_spec(index: int, x_len: int, y_len: int) -> (int, int, int) {
    (index % x_len, (index / x_len) % y_len, index / (x_len * y_len))
}

/// In-bounds coordinates flatten to an index inside the grid volume.
pub proof fn lemma_flat_index_in_volume(
    x: int,
    y: int,
    z: int,
    x_len: int,
    y_len: int,
    z_len: int,
)
    requires
        0 <= x < x_len,
        0 <= y < y_len,
        0 <= z < z_len,
    ensures
        0 <= flat_index_spec(x, y, z, x_len, y_len) < x_len * y_len * z_len,
{
    assert(0 <= x + y * x_len + z * x_len * y_len < x_len * y_len * z_len) by (nonlinear_arith)
        requires
            0 <= x < x_len,
            0 <= y < y_len,
            0 <= z < z_len,
    ;
}

/// Round trip: flattening in-bounds coordinates and mapping the flat index
/// back yields the same coordinates.
pub proof fn lemma_flat_coords_round_trip(
    x: int,
    y: int,
    z: int,
    x_len: int,
    y_len: int,
    z_len: int,
)
    requires
        0 <= x < x_len,
        0 <= y < y_len,
        0 <= z < z_len,
    ensures
        coords_spec(flat_index_spec(x, y, z, x_len, y_len), x_len, y_len) == (x, y, z),
{
    let idx = flat_index_spec(x, y, z, x_len, y_len);
    assert(idx == (y + z * y_len) * x_len + x) by (nonlinear_arith)
        requires
            idx == x + y * x_len + z * x_len * y_len,
    ;
    lemma_fundamental_div_mod_converse(idx, x_len, y + z * y_len, x);
    assert(y + z * y_len == z * y_len + y);
    lemma_fundamental_div_mod_converse(y + z * y_len, y_len, z, y);
    assert(0 <= x + y * x_len < x_len * y_len) by (nonlinear_arith)
        requires
            0 <= x < x_len,
            0 <= y < y_len,
    ;
    assert(idx == z * (x_len * y_len) + (x + y * x_len)) by (nonlinear_arith)
        requires
            idx == x + y * x_len + z * x_len * y_len,
    ;
    assert(x_len * y_len > 0) by (nonlinear_arith)
        requires
            x_len > 0,
            y_len > 0,
    ;
    lemma_fundamental_div_mod_converse(idx, x_len * y_len, z, x + y * x_len);
}

/// How many candidate offsets a neighborhood enumerates: all of `{-1,0,1}`
/// cubed for Moore (the zero offset is dropped later because it lands on the
/// cell itself), and the 6 axis-aligned unit steps for Von Neumann.
pub open spec fn offset_count(neighbourhood: Neighbourhood) -> int {
    match neighbourhood {
        Neighbourhood::Moore => 27,
        Neighbourhood::VonNeumann => 6,
    }
}

/// The `n`-th candidate offset, in the enumeration order the grid uses:
/// for Moore, lexicographic over `{-1,0,1}` cubed with the x component
/// outermost; for Von Neumann, the 6 unit steps in the same lexicographic
/// order.
pub open spec fn offset_at(neighbourhood: Neighbourhood, n: int) -> (int, int, int) {
    match neighbourhood {
        Neighbourhood::Moore => (n / 9 - 1, (n / 3) % 3 - 1, n % 3 - 1),
        Neighbourhood::VonNeumann => if n == 0 {
            (-1, 0, 0)
        } else if n == 1 {
            (0, -1, 0)
        } else if n == 2 {
            (0, 0, -1)
        } else if n == 3 {
            (0, 0, 1)
        } else if n == 4 {
            (0, 1, 0)
        } else {
            (1, 0, 0)
        },
    }
}

/// The neighbor indices contributed by the first `n` candidate offsets of a
/// cell at `(x, y, z)`.
///
/// An offset is kept when no resulting coordinate component is negative, the
/// flattened index differs from the cell's own, and the flattened index lies
/// inside the cell buffer. Only the low boundary is checked per component: a
/// component may reach its extent, so a cell on a high face addresses slots
/// that alias into the adjacent row or plane of the flat buffer. The final
/// whole-buffer bound is what keeps every returned index readable.
pub open spec fn neighbor_seq_upto(
    neighbourhood: Neighbourhood,
    x: int,
    y: int,
    z: int,
    x_len: int,
    y_len: int,
    volume: int,
    index: int,
    n: int,
) -> Seq<usize>
    decreases n,
{
    if n <= 0 {
        Seq::empty()
    } else {
        let prev = neighbor_seq_upto(neighbourhood, x, y, z, x_len, y_len, volume, index, n - 1);
        let off = offset_at(neighbourhood, n - 1);
        let nx = x + off.0;
        let ny = y + off.1;
        let nz = z + off.2;
        let ni = flat_index_spec(nx, ny, nz, x_len, y_len);
        if nx >= 0 && ny >= 0 && nz >= 0 && ni != index && 0 <= ni < volume {
            prev.push(ni as usize)
        } else {
            prev
        }
    }
}

/// All neighbor indices of the cell at `index`, in enumeration order.
pub open spec fn neighbor_seq(
    neighbourhood: Neighbourhood,
    x_len: int,
    y_len: int,
    z_len: int,
    index: int,
) -> Seq<usize> {
    let c = coords_spec(index, x_len, y_len);
    neighbor_seq_upto(
        neighbourhood,
        c.0,
        c.1,
        c.2,
        x_len,
        y_len,
        x_len * y_len * z_len,
        index,
        offset_count(neighbourhood),
    )
}

/// Every enumerated neighbor index lies inside the cell buffer, differs from
/// the cell's own index, and there are at most `n` of them.
pub proof fn lemma_neighbor_seq_upto_in_range(
    neighbourhood: Neighbourhood,
    x: int,
    y: int,
    z: int,
    x_len: int,
    y_len: int,
    volume: int,
    index: int,
    n: int,
)
    requires
        volume <= usize::MAX,
        0 <= n,
    ensures
        ({
            let s = neighbor_seq_upto(neighbourhood, x, y, z, x_len, y_len, volume, index, n);
            s.len() <= n && forall|j: int|
                0 <= j < s.len() ==> (#[trigger] s[j]) < volume && s[j] != index
        }),
    decreases n,
{
    if n > 0 {
        lemma_neighbor_seq_upto_in_range(
            neighbourhood,
            x,
            y,
            z,
            x_len,
            y_len,
            volume,
            index,
            n - 1,
        );
        let prev = neighbor_seq_upto(neighbourhood, x, y, z, x_len, y_len, volume, index, n - 1);
        let s = neighbor_seq_upto(neighbourhood, x, y, z, x_len, y_len, volume, index, n);
        assert forall|j: int| 0 <= j < s.len() implies (#[trigger] s[j]) < volume && s[j]
            != index by {
            if j < prev.len() {
                assert(s[j] == prev[j]);
            }
        }
    } else {
        assert(neighbor_seq_upto(neighbourhood, x, y, z, x_len, y_len, volume, index, n).len()
            == 0);
    }
}

impl Grid {
    /// Number of cells the dimensions call for.
    pub open spec fn volume(self) -> int {
        self.x_len * self.y_len * self.z_len
    }

    /// Well-formed: positive extents and a cell buffer of exactly the
    /// grid's volume. Established by `construct` and preserved by stepping.
    pub open spec fn wf(self) -> bool {
        0 < self.x_len && 0 < self.y_len && 0 < self.z_len && self.cells@.len() == self.volume()
    }

    /// Builds a grid. With a pattern, every cell (alive or dead) starts with
    /// `state == lifetime` and `alive` taken from the pattern; without one,
    /// every cell starts dead with `state == 0`.
    ///
    /// Zero extents are rejected with `InvalidDimensions` (empty grids are
    /// not allowed); a pattern whose length is not the grid volume is
    /// rejected with `DimensionMismatch`.
    pub fn construct(
        x_len: usize,
        y_len: usize,
        z_len: usize,
        lifetime: u8,
        initial_pattern: Option<Vec<bool>>,
    ) -> (r: Result<Grid, GridError>)
        requires
            x_len * y_len * z_len <= usize::MAX,
        ensures
            ({
                let vol = x_len * y_len * z_len;
                match r {
                    Ok(g) => 0 < x_len && 0 < y_len && 0 < z_len && g.wf() && g.x_len == x_len
                        && g.y_len == y_len && g.z_len == z_len && match initial_pattern {
                        Some(p) => p@.len() == vol && forall|i: int|
                            0 <= i < vol ==> g.cells@[i] == (Cell { alive: p@[i], state: lifetime }),
                        None => forall|i: int|
                            0 <= i < vol ==> g.cells@[i] == (Cell { alive: false, state: 0u8 }),
                    },
                    Err(GridError::InvalidDimensions) => x_len == 0 || y_len == 0 || z_len == 0,
                    Err(GridError::DimensionMismatch) => 0 < x_len && 0 < y_len && 0 < z_len
                        && match initial_pattern {
                        Some(p) => p@.len() != vol,
                        None => false,
                    },
                    Err(GridError::IndexOutOfBounds) => false,
                }
            }),
    {
        if x_len == 0 || y_len == 0 || z_len == 0 {
            return Err(GridError::InvalidDimensions);
        }
        proof {
            assert(x_len * y_len <= x_len * y_len * z_len) by (nonlinear_arith)
                requires
                    1 <= z_len,
                    0 <= x_len,
                    0 <= y_len,
            ;
        }
        let volume = x_len * y_len * z_len;
        let mut cells: Vec<Cell> = Vec::new();
        match initial_pattern {
            Some(pattern) => {
                if pattern.len() != volume {
                    return Err(GridError::DimensionMismatch);
                }
                let mut i: usize = 0;
                while i < volume
                    invariant
                        i <= volume,
                        volume == pattern@.len(),
                        cells@.len() == i,
                        forall|k: int|
                            0 <= k < i ==> cells@[k] == (Cell { alive: pattern@[k], state: lifetime }),
                    decreases volume - i,
                {
                    cells.push(Cell { alive: pattern[i], state: lifetime });
                    i = i + 1;
                }
            },
            None => {
                let mut i: usize = 0;
                while i < volume
                    invariant
                        i <= volume,
                        cells@.len() == i,
                        forall|k: int|
                            0 <= k < i ==> cells@[k] == (Cell { alive: false, state: 0u8 }),
                    decreases volume - i,
                {
                    cells.push(Cell { alive: false, state: 0 });
                    i = i + 1;
                }
            },
        }
        Ok(Grid { x_len, y_len, z_len, cells })
    }

    /// The flat index of `(x, y, z)`: `x + y*x_len + z*x_len*y_len`.
    ///
    /// Only meaningful (and only callable) for coordinates inside the grid;
    /// callers validate their inputs.
    pub fn flat_index_of(&self, x: usize, y: usize, z: usize) -> (r: usize)
        requires
            self.wf(),
            x < self.x_len,
            y < self.y_len,
            z < self.z_len,
        ensures
            r as int == flat_index_spec(x as int, y as int, z as int, self.x_len as int, self.y_len as int),
            r < self.cells@.len(),
    {
        proof {
            lemma_flat_index_in_volume(
                x as int,
                y as int,
                z as int,
                self.x_len as int,
                self.y_len as int,
                self.z_len as int,
            );
            vstd::std_specs::vec::axiom_spec_len(&self.cells);
            assert(self.cells@.len() <= usize::MAX);
            assert(self.x_len * self.y_len <= self.x_len * self.y_len * self.z_len)
                by (nonlinear_arith)
                requires
                    1 <= self.z_len,
                    0 <= self.x_len,
                    0 <= self.y_len,
            ;
            assert(z * (self.x_len * self.y_len) == z * self.x_len * self.y_len)
                by (nonlinear_arith);
            assert(0 <= y * self.x_len) by (nonlinear_arith)
                requires
                    0 <= y,
                    0 <= self.x_len,
            ;
            assert(0 <= z * (self.x_len * self.y_len)) by (nonlinear_arith)
                requires
                    0 <= z,
                    0 <= self.x_len * self.y_len,
            ;
        }
        x + y * self.x_len + z * (self.x_len * self.y_len)
    }

    /// The coordinates addressed by `index`, the inverse of `flat_index_of`.
    /// An index at or beyond the grid volume is rejected with
    /// `IndexOutOfBounds`.
    pub fn coordinates_of(&self, index: usize) -> (r: Result<(usize, usize, usize), GridError>)
        requires
            self.wf(),
        ensures
            match r {
                Ok(c) => index < self.volume() && (c.0 as int, c.1 as int, c.2 as int)
                    == coords_spec(index as int, self.x_len as int, self.y_len as int) && c.0
                    < self.x_len && c.1 < self.y_len && c.2 < self.z_len,
                Err(e) => e == GridError::IndexOutOfBounds && index >= self.volume(),
            },
    {
        if index >= self.cells.len() {
            return Err(GridError::IndexOutOfBounds);
        }
        Ok(self.coordinates_core(index))
    }

    /// Coordinate conversion for an index known to be in bounds.
    fn coordinates_core(&self, index: usize) -> (r: (usize, usize, usize))
        requires
            self.wf(),
            index < self.cells@.len(),
        ensures
            (r.0 as int, r.1 as int, r.2 as int) == coords_spec(
                index as int,
                self.x_len as int,
                self.y_len as int,
            ),
            r.0 < self.x_len,
            r.1 < self.y_len,
            r.2 < self.z_len,
    {
        let x = index % self.x_len;
        let y = (index / self.x_len) % self.y_len;
        proof {
            vstd::std_specs::vec::axiom_spec_len(&self.cells);
            assert(self.cells@.len() <= usize::MAX);
            assert(self.x_len * self.y_len <= self.x_len * self.y_len * self.z_len)
                by (nonlinear_arith)
                requires
                    1 <= self.z_len,
                    0 <= self.x_len,
                    0 <= self.y_len,
            ;
            assert(0 < self.x_len * self.y_len) by (nonlinear_arith)
                requires
                    0 < self.x_len,
                    0 < self.y_len,
            ;
        }
        let xy = self.x_len * self.y_len;
        let z = index / xy;
        proof {
            assert(index < xy * self.z_len) by (nonlinear_arith)
                requires
                    index < self.x_len * self.y_len * self.z_len,
                    xy == self.x_len * self.y_len,
            ;
            lemma_multiply_divide_lt(index as int, xy as int, self.z_len as int);
        }
        (x, y, z)
    }

    /// The neighbor indices of the cell at `index` under `neighbourhood`, in
    /// enumeration order. An index at or beyond the grid volume is rejected
    /// with `IndexOutOfBounds`; every returned index lies inside the cell
    /// buffer.
    ///
    /// Boundary handling is deliberately asymmetric: an offset is dropped
    /// when it would push a coordinate below zero, but a coordinate may
    /// reach its extent, so cells on a high face address neighbor slots that
    /// alias into the adjacent row or plane of the flat buffer. Candidates
    /// whose flattened index falls outside the buffer are clipped.
    pub fn neighbor_indices_of(&self, index: usize, neighbourhood: Neighbourhood) -> (r: Result<
        Vec<usize>,
        GridError,
    >)
        requires
            self.wf(),
        ensures
            match r {
                Ok(v) => index < self.volume() && v@ == neighbor_seq(
                    neighbourhood,
                    self.x_len as int,
                    self.y_len as int,
                    self.z_len as int,
                    index as int,
                ),
                Err(e) => e == GridError::IndexOutOfBounds && index >= self.volume(),
            },
    {
        if index >= self.cells.len() {
            return Err(GridError::IndexOutOfBounds);
        }
        Ok(self.neighbor_indices_core(index, neighbourhood))
    }

    /// Neighbor enumeration for an index known to be in bounds.
    pub(crate) fn neighbor_indices_core(&self, index: usize, neighbourhood: Neighbourhood) -> (r:
        Vec<usize>)
        requires
            self.wf(),
            index < self.cells@.len(),
        ensures
            r@ == neighbor_seq(
                neighbourhood,
                self.x_len as int,
                self.y_len as int,
                self.z_len as int,
                index as int,
            ),
    {
        let (x, y, z) = self.coordinates_core(index);
        let count: usize = match neighbourhood {
            Neighbourhood::Moore => 27,
            Neighbourhood::VonNeumann => 6,
        };
        let mut out: Vec<usize> = Vec::new();
        let mut n: usize = 0;
        while n < count
            invariant
                self.wf(),
                index < self.cells@.len(),
                x < self.x_len,
                y < self.y_len,
                z < self.z_len,
                (x as int, y as int, z as int) == coords_spec(
                    index as int,
                    self.x_len as int,
                    self.y_len as int,
                ),
                count == offset_count(neighbourhood),
                n <= count,
                out@ == neighbor_seq_upto(
                    neighbourhood,
                    x as int,
                    y as int,
                    z as int,
                    self.x_len as int,
                    self.y_len as int,
                    self.volume(),
                    index as int,
                    n as int,
                ),
            decreases count - n,
        {
            let (ox, oy, oz): (i8, i8, i8) = match neighbourhood {
                Neighbourhood::Moore => (
                    (n / 9) as i8 - 1,
                    ((n / 3) % 3) as i8 - 1,
                    (n % 3) as i8 - 1,
                ),
                Neighbourhood::VonNeumann => if n == 0 {
                    (-1, 0, 0)
                } else if n == 1 {
                    (0, -1, 0)
                } else if n == 2 {
                    (0, 0, -1)
                } else if n == 3 {
                    (0, 0, 1)
                } else if n == 4 {
                    (0, 1, 0)
                } else {
                    (1, 0, 0)
                },
            };
            proof {
                assert((ox as int, oy as int, oz as int) == offset_at(neighbourhood, n as int));
                assert(-1 <= ox <= 1 && -1 <= oy <= 1 && -1 <= oz <= 1);
            }
            if (ox != -1 || x > 0) && (oy != -1 || y > 0) && (oz != -1 || z > 0) {
                let nx: usize = if ox == -1 { x - 1 } else if ox == 1 { x + 1 } else { x };
                let ny: usize = if oy == -1 { y - 1 } else if oy == 1 { y + 1 } else { y };
                let nz: usize = if oz == -1 { z - 1 } else if oz == 1 { z + 1 } else { z };
                proof {
                    assert(nx as int == x as int + ox as int);
                    assert(ny as int == y as int + oy as int);
                    assert(nz as int == z as int + oz as int);
                    vstd::std_specs::vec::axiom_spec_len(&self.cells);
                    assert(self.cells@.len() <= usize::MAX);
                    assert(ny as int * (self.x_len as int) <= self.x_len * self.y_len * self.z_len
                        && nz as int * (self.x_len as int) <= self.x_len * self.y_len * self.z_len
                        && nz as int * (self.x_len as int) * (self.y_len as int) <= self.x_len
                        * self.y_len * self.z_len) by (nonlinear_arith)
                        requires
                            ny as int <= self.y_len as int,
                            nz as int <= self.z_len as int,
                            1 <= self.x_len,
                            1 <= self.y_len,
                            1 <= self.z_len,
                            0 <= ny as int,
                            0 <= nz as int,
                    ;
                }
                let ni: u128 = nx as u128 + (ny as u128) * (self.x_len as u128) + (nz as u128)
                    * (self.x_len as u128) * (self.y_len as u128);
                if ni != index as u128 && ni < self.cells.len() as u128 {
                    out.push(ni as usize);
                }
            }
            n = n + 1;
        }
        out
    }

    /// How many cells the grid holds.
    pub fn cell_count(&self) -> (r: usize)
        ensures
            r == self.cells@.len(),
    {
        self.cells.len()
    }

    /// The cell at a flat index; an index at or beyond the grid volume is
    /// rejected with `IndexOutOfBounds`.
    pub fn cell_at(&self, index: usize) -> (r: Result<Cell, GridError>)
        requires
            self.wf(),
        ensures
            match r {
                Ok(c) => index < self.volume() && c == self.cells@[index as int],
                Err(e) => e == GridError::IndexOutOfBounds && index >= self.volume(),
            },
    {
        if index >= self.cells.len() {
            return Err(GridError::IndexOutOfBounds);
        }
        Ok(self.cells[index])
    }

    /// The cell at `(x, y, z)`; a coordinate outside the grid is rejected
    /// with `IndexOutOfBounds`.
    pub fn cell_at_xyz(&self, x: usize, y: usize, z: usize) -> (r: Result<Cell, GridError>)
        requires
            self.wf(),
        ensures
            match r {
                Ok(c) => x < self.x_len && y < self.y_len && z < self.z_len && c == self.cells@[
                    flat_index_spec(
                        x as int,
                        y as int,
                        z as int,
                        self.x_len as int,
                        self.y_len as int,
                    )],
                Err(e) => e == GridError::IndexOutOfBounds && (x >= self.x_len || y >= self.y_len
                    || z >= self.z_len),
            },
    {
        if x >= self.x_len || y >= self.y_len || z >= self.z_len {
            return Err(GridError::IndexOutOfBounds);
        }
        let index = self.flat_index_of(x, y, z);
        Ok(self.cells[index])
    }
}

} // verus!
