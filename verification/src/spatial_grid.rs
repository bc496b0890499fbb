//! The toroidal uniform-grid spatial hash.
//!
//! The world is cut into `grid_size * grid_size` square cells of side
//! `cell_size`, stored row-major. Each cell holds the indices of the agents
//! inside it; occupancy flags and population statistics ride along so that
//! queries can skip empty cells and adapt to local crowding.

use vstd::prelude::*;
use crate::vec2::Vec2i;

verus! {

/// Largest grid side length: keeps the bucket count addressable and the
/// bucket array allocatable.
pub const MAX_GRID: usize = 32_768;

/// A neighbor candidate: an agent index and its wrap-aware squared distance
/// from the query point.
#[derive(Clone, Copy, PartialEq, Eq, Structural, Debug)]
pub struct NeighborEntry {
    pub index: usize,
    pub distance_squared: i64,
}

/// Number of empty buckets among the first `k`.
pub open spec fn count_empty_to(s: Seq<Seq<usize>>, k: int) -> int
    decreases k,
{
    if k <= 0 {
        0
    } else {
        count_empty_to(s, k - 1) + if s[k - 1].len() == 0 {
            1int
        } else {
            0int
        }
    }
}

/// Largest bucket population among the first `k`.
pub open spec fn max_bucket_to(s: Seq<Seq<usize>>, k: int) -> int
    decreases k,
{
    if k <= 0 {
        0
    } else {
        let rest = max_bucket_to(s, k - 1);
        if s[k - 1].len() > rest {
            s[k - 1].len() as int
        } else {
            rest
        }
    }
}

/// Total population of the first `k` buckets.
pub open spec fn total_count_to(s: Seq<Seq<usize>>, k: int) -> int
    decreases k,
{
    if k <= 0 {
        0
    } else {
        total_count_to(s, k - 1) + s[k - 1].len()
    }
}

/// How one in-place bucket update moves the empty-cell count.
pub proof fn lemma_count_empty_update(s: Seq<Seq<usize>>, c: int, v: Seq<usize>, k: int)
    requires
        0 <= c < s.len(),
        k <= s.len(),
    ensures
        count_empty_to(s.update(c, v), k) == count_empty_to(s, k) + if c < k {
            (if v.len() == 0 {
                1int
            } else {
                0int
            }) - (if s[c].len() == 0 {
                1int
            } else {
                0int
            })
        } else {
            0int
        },
    decreases k,
{
    if k > 0 {
        lemma_count_empty_update(s, c, v, k - 1);
    }
}

/// How one in-place bucket update moves the maximum population, provided
/// the bucket does not shrink.
pub proof fn lemma_max_bucket_update(s: Seq<Seq<usize>>, c: int, v: Seq<usize>, k: int)
    requires
        0 <= c < s.len(),
        k <= s.len(),
        v.len() >= s[c].len(),
    ensures
        max_bucket_to(s.update(c, v), k) == if c < k {
            let rest = max_bucket_to(s, k);
            if v.len() > rest {
                v.len() as int
            } else {
                rest
            }
        } else {
            max_bucket_to(s, k)
        },
    decreases k,
{
    if k > 0 {
        lemma_max_bucket_update(s, c, v, k - 1);
    }
}

/// How one in-place bucket update moves the total population.
pub proof fn lemma_total_count_update(s: Seq<Seq<usize>>, c: int, v: Seq<usize>, k: int)
    requires
        0 <= c < s.len(),
        k <= s.len(),
    ensures
        total_count_to(s.update(c, v), k) == total_count_to(s, k) + if c < k {
            v.len() - s[c].len()
        } else {
            0int
        },
    decreases k,
{
    if k > 0 {
        lemma_total_count_update(s, c, v, k - 1);
    }
}

/// Every prefix total is at most the whole total.
pub proof fn lemma_total_count_mono(s: Seq<Seq<usize>>, k1: int, k2: int)
    requires
        0 <= k1 <= k2 <= s.len(),
    ensures
        total_count_to(s, k1) <= total_count_to(s, k2),
    decreases k2,
{
    if k1 < k2 {
        lemma_total_count_mono(s, k1, k2 - 1);
    }
}

/// The counts are bounded by what they count: at most `k` empties, every
/// bucket at most the maximum and at most the total.
pub proof fn lemma_counts_basic(s: Seq<Seq<usize>>, k: int)
    requires
        0 <= k <= s.len(),
    ensures
        0 <= count_empty_to(s, k) <= k,
        0 <= max_bucket_to(s, k),
        0 <= total_count_to(s, k),
        forall|c: int| 0 <= c < k ==> #[trigger] s[c].len() <= total_count_to(s, k),
        forall|c: int| 0 <= c < k ==> #[trigger] s[c].len() <= max_bucket_to(s, k),
    decreases k,
{
    if k > 0 {
        lemma_counts_basic(s, k - 1);
        assert forall|c: int| 0 <= c < k implies #[trigger] s[c].len() <= total_count_to(s, k) by {
            if c < k - 1 {
                assert(s[c].len() <= total_count_to(s, k - 1));
            }
        }
        assert forall|c: int| 0 <= c < k implies #[trigger] s[c].len() <= max_bucket_to(s, k) by {
            if c < k - 1 {
                assert(s[c].len() <= max_bucket_to(s, k - 1));
            }
        }
    }
}

/// A prefix of all-empty buckets counts `k` empties, no population and no
/// maximum.
pub proof fn lemma_counts_all_empty(s: Seq<Seq<usize>>, k: int)
    requires
        0 <= k <= s.len(),
        forall|c: int| 0 <= c < k ==> #[trigger] s[c].len() == 0,
    ensures
        count_empty_to(s, k) == k,
        max_bucket_to(s, k) == 0,
        total_count_to(s, k) == 0,
    decreases k,
{
    if k > 0 {
        lemma_counts_all_empty(s, k - 1);
    }
}

/// An empty bucket below `k` puts at least one empty in the count.
pub proof fn lemma_count_empty_at_least_one(s: Seq<Seq<usize>>, c: int, k: int)
    requires
        0 <= c < k <= s.len(),
        s[c].len() == 0,
    ensures
        count_empty_to(s, k) >= 1,
    decreases k,
{
    lemma_counts_basic(s, k - 1);
    if c < k - 1 {
        lemma_count_empty_at_least_one(s, c, k - 1);
    }
}

/// The clamped grid coordinate of a world coordinate along one axis.
pub open spec fn spec_grid_coord(p: int, w: int, cs: int, gs: int) -> int {
    let raw = (p + w / 2) / cs;
    if raw < 0 {
        0
    } else if raw > gs - 1 {
        gs - 1
    } else {
        raw
    }
}

/// The row-major bucket index of an in-world position, with per-axis
/// clamping into the grid.
pub open spec fn spec_cell_index(pos: Vec2i, w: int, cs: int, gs: int) -> int {
    spec_grid_coord(pos.y as int, w, cs, gs) * gs + spec_grid_coord(pos.x as int, w, cs, gs)
}

pub struct SpatialGrid {
    pub cell_size: i64,
    pub grid: Vec<Vec<usize>>,
    pub grid_size: usize,
    pub cell_occupancy: Vec<bool>,
    pub empty_cell_count: usize,
    pub max_cell_population: usize,
    pub avg_cell_population: usize,
}

impl SpatialGrid {
    /// The mathematical contents of the bucket array.
    pub open spec fn buckets(self) -> Seq<Seq<usize>> {
        Seq::new(self.grid@.len(), |i: int| self.grid@[i]@)
    }

    /// Structural well-formedness: the bucket array matches the grid side,
    /// the occupancy flags mirror the buckets, and the running statistics
    /// count what they claim to count.
    pub open spec fn inv(self) -> bool {
        &&& 1 <= self.cell_size <= crate::MAX_WORLD
        &&& 1 <= self.grid_size <= MAX_GRID
        &&& self.grid@.len() == self.grid_size * self.grid_size
        &&& self.cell_occupancy@.len() == self.grid@.len()
        &&& forall|c: int|
            0 <= c < self.grid@.len() ==> #[trigger] self.cell_occupancy@[c] == (
            self.buckets()[c].len() > 0)
        &&& self.empty_cell_count == count_empty_to(self.buckets(), self.grid@.len() as int)
        &&& self.max_cell_population == max_bucket_to(self.buckets(), self.grid@.len() as int)
        &&& total_count_to(self.buckets(), self.grid@.len() as int) <= crate::params::MAX_AGENTS
        &&& self.avg_cell_population <= crate::params::MAX_AGENTS
    }

    /// Total number of agents currently stored.
    pub open spec fn population(self) -> int {
        total_count_to(self.buckets(), self.grid@.len() as int)
    }

    /// An empty grid of `ceil(world_size / cell_size)` cells per side.
    pub fn new(cell_size: i64, world_size: i64) -> (r: SpatialGrid)
        requires
            0 < world_size <= crate::MAX_WORLD,
            0 < cell_size <= crate::MAX_WORLD,
            (world_size + cell_size - 1) / (cell_size as int) <= MAX_GRID,
        ensures
            r.inv(),
            r.cell_size == cell_size,
            r.grid_size == (world_size + cell_size - 1) / (cell_size as int),
            r.grid@.len() == r.grid_size * r.grid_size,
            forall|c: int| 0 <= c < r.grid@.len() ==> #[trigger] r.buckets()[c].len() == 0,
            r.population() == 0,
            r.empty_cell_count == r.grid@.len(),
            r.max_cell_population == 0,
            r.avg_cell_population == 0,
    {
        let grid_size = (((world_size as u64) + (cell_size as u64) - 1) / (cell_size as u64))
            as usize;
        proof {
            vstd::arithmetic::div_mod::lemma_div_is_ordered(cell_size as int,
                world_size + cell_size - 1, cell_size as int);
            vstd::arithmetic::div_mod::lemma_div_by_self(cell_size as int);
            crate::vec2::lemma_square_range(grid_size as int, MAX_GRID as int);
        }
        let total_cells = grid_size * grid_size;
        let mut grid: Vec<Vec<usize>> = Vec::new();
        let mut occupancy: Vec<bool> = Vec::new();
        let mut i: usize = 0;
        while i < total_cells
            invariant
                i <= total_cells,
                grid@.len() == i,
                occupancy@.len() == i,
                forall|c: int| 0 <= c < i ==> #[trigger] grid@[c]@.len() == 0,
                forall|c: int| 0 <= c < i ==> #[trigger] occupancy@[c] == false,
            decreases total_cells - i,
        {
            let cell: Vec<usize> = Vec::new();
            grid.push(cell);
            occupancy.push(false);
            i = i + 1;
        }
        let r = SpatialGrid {
            cell_size,
            grid,
            grid_size,
            cell_occupancy: occupancy,
            empty_cell_count: total_cells,
            max_cell_population: 0,
            avg_cell_population: 0,
        };
        proof {
            assert forall|c: int| 0 <= c < total_cells implies #[trigger] r.buckets()[c].len()
                == 0 by {
                assert(r.buckets()[c] == r.grid@[c]@);
            }
            lemma_counts_all_empty(r.buckets(), total_cells as int);
        }
        r
    }

    /// The clamped grid coordinates of a position.
    pub fn pos_to_cell_coords(&self, pos: Vec2i, world_size: i64) -> (r: (usize, usize))
        requires
            self.inv(),
            0 < world_size <= crate::MAX_WORLD,
            pos.in_box(world_size as int / 2),
        ensures
            r.0 == spec_grid_coord(pos.x as int, world_size as int, self.cell_size as int,
                self.grid_size as int),
            r.1 == spec_grid_coord(pos.y as int, world_size as int, self.cell_size as int,
                self.grid_size as int),
            r.0 < self.grid_size,
            r.1 < self.grid_size,
    {
        let half = world_size / 2;
        let gx = (((pos.x + half) as u64) / (self.cell_size as u64)) as usize;
        let gy = (((pos.y + half) as u64) / (self.cell_size as u64)) as usize;
        let cx = if gx > self.grid_size - 1 {
            self.grid_size - 1
        } else {
            gx
        };
        let cy = if gy > self.grid_size - 1 {
            self.grid_size - 1
        } else {
            gy
        };
        (cx, cy)
    }

    /// The row-major bucket index of a position.
    pub fn pos_to_cell_index(&self, pos: Vec2i, world_size: i64) -> (r: usize)
        requires
            self.inv(),
            0 < world_size <= crate::MAX_WORLD,
            pos.in_box(world_size as int / 2),
        ensures
            r == spec_cell_index(pos, world_size as int, self.cell_size as int,
                self.grid_size as int),
            r < self.grid@.len(),
    {
        let (cx, cy) = self.pos_to_cell_coords(pos, world_size);
        proof {
            lemma_row_major_in_range(cx as int, cy as int, self.grid_size as int);
            crate::vec2::lemma_square_range(self.grid_size as int, MAX_GRID as int);
        }
        cy * self.grid_size + cx
    }

    /// A row-major index from wrapped cell coordinates: coordinates past
    /// either side come back around, which makes cell adjacency toroidal.
    pub fn cell_coords_to_index(&self, x: usize, y: usize) -> (r: usize)
        requires
            self.inv(),
        ensures
            r == (y as int % self.grid_size as int) * self.grid_size + (x as int
                % self.grid_size as int),
            r < self.grid@.len(),
    {
        let wx = x % self.grid_size;
        let wy = y % self.grid_size;
        proof {
            lemma_row_major_in_range(wx as int, wy as int, self.grid_size as int);
            crate::vec2::lemma_square_range(self.grid_size as int, MAX_GRID as int);
        }
        wy * self.grid_size + wx
    }

    /// Empty every bucket and reset the occupancy flags and statistics.
    pub fn clear(&mut self)
        requires
            old(self).inv(),
        ensures
            final(self).inv(),
            final(self).cell_size == old(self).cell_size,
            final(self).grid_size == old(self).grid_size,
            final(self).grid@.len() == old(self).grid@.len(),
            forall|c: int|
                0 <= c < final(self).grid@.len() ==> #[trigger] final(self).buckets()[c].len()
                    == 0,
            final(self).population() == 0,
            final(self).empty_cell_count == final(self).grid@.len(),
            final(self).max_cell_population == 0,
            final(self).avg_cell_population == 0,
    {
        let total_cells = self.grid.len();
        let mut i: usize = 0;
        while i < total_cells
            invariant
                i <= total_cells,
                self.grid@.len() == total_cells,
                self.cell_occupancy@.len() == total_cells,
                self.cell_size == old(self).cell_size,
                self.grid_size == old(self).grid_size,
                1 <= self.cell_size <= crate::MAX_WORLD,
                1 <= self.grid_size <= MAX_GRID,
                total_cells == self.grid_size * self.grid_size,
                forall|c: int| 0 <= c < i ==> #[trigger] self.grid@[c]@.len() == 0,
                forall|c: int| 0 <= c < i ==> #[trigger] self.cell_occupancy@[c] == false,
            decreases total_cells - i,
        {
            self.grid[i].clear();
            self.cell_occupancy[i] = false;
            i = i + 1;
        }
        proof {
            assert forall|c: int| 0 <= c < total_cells implies #[trigger] self.buckets()[c].len()
                == 0 by {
                assert(self.buckets()[c] == self.grid@[c]@);
            }
            lemma_counts_all_empty(self.buckets(), total_cells as int);
        }
        self.empty_cell_count = total_cells;
        self.max_cell_population = 0;
        self.avg_cell_population = 0;
    }

    /// Insert an agent index into the bucket of its position, keeping the
    /// occupancy flags and the running statistics in step.
    pub fn insert(&mut self, boid_index: usize, position: Vec2i, world_size: i64)
        requires
            old(self).inv(),
            0 < world_size <= crate::MAX_WORLD,
            position.in_box(world_size as int / 2),
            old(self).population() < crate::params::MAX_AGENTS,
        ensures
            final(self).inv(),
            final(self).cell_size == old(self).cell_size,
            final(self).grid_size == old(self).grid_size,
            final(self).avg_cell_population == old(self).avg_cell_population,
            final(self).buckets() == old(self).buckets().update(
                spec_cell_index(position, world_size as int, old(self).cell_size as int,
                    old(self).grid_size as int),
                old(self).buckets()[spec_cell_index(position, world_size as int,
                    old(self).cell_size as int, old(self).grid_size as int)].push(boid_index),
            ),
            final(self).population() == old(self).population() + 1,
    {
        let cell_index = self.pos_to_cell_index(position, world_size);
        let ghost s0 = self.buckets();
        let ghost c = cell_index as int;
        let ghost n = s0.len() as int;
        let was_empty = self.grid[cell_index].len() == 0;
        if was_empty && !self.cell_occupancy[cell_index] {
            proof {
                lemma_count_empty_at_least_one(s0, c, n);
            }
            self.empty_cell_count = self.empty_cell_count - 1;
        }
        self.grid[cell_index].push(boid_index);
        self.cell_occupancy[cell_index] = true;
        proof {
            let v = s0[c].push(boid_index);
            assert(self.buckets() =~= s0.update(c, v));
            lemma_count_empty_update(s0, c, v, n);
            lemma_max_bucket_update(s0, c, v, n);
            lemma_total_count_update(s0, c, v, n);
            lemma_counts_basic(s0.update(c, v), n);
        }
        let new_len = self.grid[cell_index].len();
        if new_len > self.max_cell_population {
            self.max_cell_population = new_len;
        }
    }

    /// Recompute the average population of an occupied cell from the
    /// current buckets.
    pub fn update_statistics(&mut self)
        requires
            old(self).inv(),
        ensures
            final(self).inv(),
            final(self).grid@ == old(self).grid@,
            final(self).cell_occupancy@ == old(self).cell_occupancy@,
            final(self).cell_size == old(self).cell_size,
            final(self).grid_size == old(self).grid_size,
            final(self).empty_cell_count == old(self).empty_cell_count,
            final(self).max_cell_population == old(self).max_cell_population,
            final(self).avg_cell_population == (if old(self).grid@.len()
                - old(self).empty_cell_count > 0 {
                old(self).population() / (old(self).grid@.len() - old(self).empty_cell_count)
            } else {
                0int
            }),
    {
        let total_cells = self.grid.len();
        proof {
            lemma_counts_basic(self.buckets(), total_cells as int);
        }
        let occupied_cells = total_cells - self.empty_cell_count;
        if occupied_cells > 0 {
            let mut total: usize = 0;
            let mut c: usize = 0;
            while c < total_cells
                invariant
                    c <= total_cells,
                    self.grid@.len() == total_cells,
                    total == total_count_to(self.buckets(), c as int),
                    total_count_to(self.buckets(), total_cells as int)
                        <= crate::params::MAX_AGENTS,
                decreases total_cells - c,
            {
                proof {
                    lemma_total_count_mono(self.buckets(), c as int + 1, total_cells as int);
                    lemma_counts_basic(self.buckets(), c as int + 1);
                }
                total = total + self.grid[c].len();
                c = c + 1;
            }
            self.avg_cell_population = total / occupied_cells;
            proof {
                vstd::arithmetic::div_mod::lemma_div_is_ordered_by_denominator(
                    total as int, 1, occupied_cells as int);
                vstd::arithmetic::div_mod::lemma_div_basics(total as int);
            }
        } else {
            self.avg_cell_population = 0;
        }
    }

    /// The grid's health numbers: `(occupied cells, total cells, occupancy
    /// percentage, largest cell population)`.
    pub fn get_statistics(&self) -> (r: (usize, usize, usize, usize))
        requires
            self.inv(),
        ensures
            r.0 == self.grid@.len() - self.empty_cell_count,
            r.1 == self.grid@.len(),
            r.2 == (self.grid@.len() - self.empty_cell_count) * 100 / self.grid@.len() as int,
            r.3 == self.max_cell_population,
    {
        let total_cells = self.grid.len();
        proof {
            lemma_counts_basic(self.buckets(), total_cells as int);
            crate::vec2::lemma_square_range(self.grid_size as int, MAX_GRID as int);
            crate::vec2::lemma_square_range(1, self.grid_size as int);
        }
        let occupied_cells = total_cells - self.empty_cell_count;
        proof {
            vstd::arithmetic::div_mod::lemma_div_is_ordered(
                occupied_cells as int * 100, total_cells as int * 100, total_cells as int);
            vstd::arithmetic::div_mod::lemma_div_multiples_vanish(100, total_cells as int);
        }
        let percentage = (((occupied_cells as u64) * 100) / (total_cells as u64)) as usize;
        (occupied_cells, total_cells, percentage, self.max_cell_population)
    }

    /// The neighborhood a query scans and reports, in scan order: the cell
    /// containing `pos` first, then its toroidal neighbors — the four
    /// orthogonal ones when the center cell is crowded past twice the
    /// average occupied-cell population, the full ring of eight otherwise.
    pub open spec fn spec_query(
        self,
        self_index: int,
        pos: Vec2i,
        positions: Seq<Vec2i>,
        w: int,
    ) -> Seq<NeighborEntry> {
        let gs = self.grid_size as int;
        let cs = self.cell_size as int;
        let cx = spec_grid_coord(pos.x as int, w, cs, gs);
        let cy = spec_grid_coord(pos.y as int, w, cs, gs);
        let center = spec_scan_cell(cx, cy, gs);
        let center_entries = spec_process_cell(self.buckets()[center], self_index, pos, positions,
            w);
        let dense = self.buckets()[center].len() > 0 && self.buckets()[center].len() > 2
            * self.avg_cell_population;
        if dense {
            center_entries + self.scan_at(cx + 1, cy, self_index, pos, positions, w) + self.scan_at(
                cx + gs - 1,
                cy,
                self_index,
                pos,
                positions,
                w,
            ) + self.scan_at(cx, cy + 1, self_index, pos, positions, w) + self.scan_at(cx,
                cy + gs - 1, self_index, pos, positions, w)
        } else {
            center_entries + self.scan_at(cx + gs - 1, cy + gs - 1, self_index, pos, positions, w)
                + self.scan_at(cx, cy + gs - 1, self_index, pos, positions, w) + self.scan_at(
                cx + 1, cy + gs - 1, self_index, pos, positions, w) + self.scan_at(cx + gs - 1, cy,
                self_index, pos, positions, w) + self.scan_at(cx + 1, cy, self_index, pos,
                positions, w) + self.scan_at(cx + gs - 1, cy + 1, self_index, pos, positions, w)
                + self.scan_at(cx, cy + 1, self_index, pos, positions, w) + self.scan_at(cx + 1,
                cy + 1, self_index, pos, positions, w)
        }
    }

    /// The entries one scanned cell contributes, its coordinates wrapped
    /// into the grid.
    pub open spec fn scan_at(
        self,
        x: int,
        y: int,
        self_index: int,
        pos: Vec2i,
        positions: Seq<Vec2i>,
        w: int,
    ) -> Seq<NeighborEntry> {
        spec_process_cell(self.buckets()[spec_scan_cell(x, y, self.grid_size as int)], self_index,
            pos, positions, w)
    }

    /// Walk one bucket and append every admissible candidate to `out`,
    /// with its wrap-aware squared distance; reports whether the cell held
    /// anything.
    fn process_cell(
        &self,
        cell_index: usize,
        self_index: usize,
        position: Vec2i,
        positions: &Vec<Vec2i>,
        world_size: i64,
        out: &mut Vec<NeighborEntry>,
    ) -> (had: bool)
        requires
            self.inv(),
            cell_index < self.grid@.len(),
            0 < world_size <= crate::MAX_WORLD,
            position.in_box(world_size as int / 2),
            forall|j: int|
                0 <= j < positions@.len() ==> (#[trigger] positions@[j]).in_box(
                    world_size as int / 2),
        ensures
            final(out)@ == old(out)@ + spec_process_cell(self.buckets()[cell_index as int],
                self_index as int, position, positions@, world_size as int),
            had == (self.buckets()[cell_index as int].len() > 0),
    {
        let ghost bucket = self.buckets()[cell_index as int];
        if !self.cell_occupancy[cell_index] {
            proof {
                assert(out@ =~= old(out)@ + spec_process_to(bucket, 0, self_index as int, position,
                    positions@, world_size as int));
            }
            return false;
        }
        let bucket_len = self.grid[cell_index].len();
        let mut k: usize = 0;
        proof {
            assert(out@ =~= old(out)@ + spec_process_to(bucket, 0, self_index as int, position,
                positions@, world_size as int));
        }
        while k < bucket_len
            invariant
                self.inv(),
                cell_index < self.grid@.len(),
                0 < world_size <= crate::MAX_WORLD,
                position.in_box(world_size as int / 2),
                forall|j: int|
                    0 <= j < positions@.len() ==> (#[trigger] positions@[j]).in_box(
                        world_size as int / 2),
                bucket == self.buckets()[cell_index as int],
                bucket_len == bucket.len(),
                k <= bucket_len,
                out@ == old(out)@ + spec_process_to(bucket, k as int, self_index as int, position,
                    positions@, world_size as int),
            decreases bucket_len - k,
        {
            let j = self.grid[cell_index][k];
            if j != self_index && j < positions.len() {
                let d = crate::vec2::wrapped_distance_squared(position, positions[j], world_size);
                out.push(NeighborEntry { index: j, distance_squared: d });
            }
            proof {
                assert(out@ =~= old(out)@ + spec_process_to(bucket, k as int + 1,
                    self_index as int, position, positions@, world_size as int));
            }
            k = k + 1;
        }
        true
    }

    /// Collect the neighbor candidates of `position`: every agent stored in
    /// the scanned neighborhood of its cell, except `self_index` itself,
    /// each with its wrap-aware squared distance.
    pub fn get_nearby_with_distances(
        &self,
        self_index: usize,
        position: Vec2i,
        positions: &Vec<Vec2i>,
        world_size: i64,
    ) -> (r: Vec<NeighborEntry>)
        requires
            self.inv(),
            0 < world_size <= crate::MAX_WORLD,
            position.in_box(world_size as int / 2),
            forall|j: int|
                0 <= j < positions@.len() ==> (#[trigger] positions@[j]).in_box(
                    world_size as int / 2),
        ensures
            r@ == self.spec_query(self_index as int, position, positions@, world_size as int),
    {
        let mut result: Vec<NeighborEntry> = Vec::new();
        let (cx, cy) = self.pos_to_cell_coords(position, world_size);
        let gs = self.grid_size;
        let center = self.cell_coords_to_index(cx, cy);
        proof {
            vstd::arithmetic::div_mod::lemma_small_mod(cx as nat, gs as nat);
            vstd::arithmetic::div_mod::lemma_small_mod(cy as nat, gs as nat);
        }
        let center_had = self.process_cell(center, self_index, position, positions, world_size,
            &mut result);
        let center_len = self.grid[center].len();
        let dense = center_had && center_len > 2 * self.avg_cell_population;
        if dense {
            let c1 = self.cell_coords_to_index(cx + 1, cy);
            self.process_cell(c1, self_index, position, positions, world_size, &mut result);
            let c2 = self.cell_coords_to_index(cx + gs - 1, cy);
            self.process_cell(c2, self_index, position, positions, world_size, &mut result);
            let c3 = self.cell_coords_to_index(cx, cy + 1);
            self.process_cell(c3, self_index, position, positions, world_size, &mut result);
            let c4 = self.cell_coords_to_index(cx, cy + gs - 1);
            self.process_cell(c4, self_index, position, positions, world_size, &mut result);
            proof {
                assert(result@ =~= self.spec_query(self_index as int, position, positions@,
                    world_size as int));
            }
        } else {
            let c1 = self.cell_coords_to_index(cx + gs - 1, cy + gs - 1);
            self.process_cell(c1, self_index, position, positions, world_size, &mut result);
            let c2 = self.cell_coords_to_index(cx, cy + gs - 1);
            self.process_cell(c2, self_index, position, positions, world_size, &mut result);
            let c3 = self.cell_coords_to_index(cx + 1, cy + gs - 1);
            self.process_cell(c3, self_index, position, positions, world_size, &mut result);
            let c4 = self.cell_coords_to_index(cx + gs - 1, cy);
            self.process_cell(c4, self_index, position, positions, world_size, &mut result);
            let c5 = self.cell_coords_to_index(cx + 1, cy);
            self.process_cell(c5, self_index, position, positions, world_size, &mut result);
            let c6 = self.cell_coords_to_index(cx + gs - 1, cy + 1);
            self.process_cell(c6, self_index, position, positions, world_size, &mut result);
            let c7 = self.cell_coords_to_index(cx, cy + 1);
            self.process_cell(c7, self_index, position, positions, world_size, &mut result);
            let c8 = self.cell_coords_to_index(cx + 1, cy + 1);
            self.process_cell(c8, self_index, position, positions, world_size, &mut result);
            proof {
                assert(result@ =~= self.spec_query(self_index as int, position, positions@,
                    world_size as int));
            }
        }
        result
    }
}

/// Whether a stored index is reported to the querying agent.
pub open spec fn spec_entry_ok(j: usize, self_index: int, n_positions: int) -> bool {
    j != self_index && (j as int) < n_positions
}

/// The entry a reported candidate contributes.
pub open spec fn spec_entry(j: usize, pos: Vec2i, positions: Seq<Vec2i>, w: int) -> NeighborEntry {
    NeighborEntry {
        index: j,
        distance_squared: crate::vec2::spec_wrapped_distance_sq(pos, positions[j as int], w) as i64,
    }
}

/// The entries contributed by the first `k` indices of one bucket.
pub open spec fn spec_process_to(
    bucket: Seq<usize>,
    k: int,
    self_index: int,
    pos: Vec2i,
    positions: Seq<Vec2i>,
    w: int,
) -> Seq<NeighborEntry>
    decreases k,
{
    if k <= 0 {
        Seq::empty()
    } else {
        let rest = spec_process_to(bucket, k - 1, self_index, pos, positions, w);
        if spec_entry_ok(bucket[k - 1], self_index, positions.len() as int) {
            rest.push(spec_entry(bucket[k - 1], pos, positions, w))
        } else {
            rest
        }
    }
}

/// The entries contributed by a whole bucket.
pub open spec fn spec_process_cell(
    bucket: Seq<usize>,
    self_index: int,
    pos: Vec2i,
    positions: Seq<Vec2i>,
    w: int,
) -> Seq<NeighborEntry> {
    spec_process_to(bucket, bucket.len() as int, self_index, pos, positions, w)
}

/// The bucket index of possibly out-of-range scan coordinates, wrapped
/// toroidally.
pub open spec fn spec_scan_cell(x: int, y: int, gs: int) -> int {
    (y % gs) * gs + (x % gs)
}


/// A sequence keeps its members when another is appended after it.
pub proof fn lemma_add_contains_left<A>(a: Seq<A>, b: Seq<A>, e: A)
    requires
        a.contains(e),
    ensures
        (a + b).contains(e),
{
    let i = choose|i: int| 0 <= i < a.len() && a[i] == e;
    assert((a + b)[i] == e);
}

/// Every admissible index among the first `k` of a bucket contributes its
/// entry to the processed prefix.
pub proof fn lemma_process_to_contains(
    bucket: Seq<usize>,
    k: int,
    i: int,
    self_index: int,
    pos: Vec2i,
    positions: Seq<Vec2i>,
    w: int,
)
    requires
        0 <= i < k <= bucket.len(),
        spec_entry_ok(bucket[i], self_index, positions.len() as int),
    ensures
        spec_process_to(bucket, k, self_index, pos, positions, w).contains(
            spec_entry(bucket[i], pos, positions, w)),
    decreases k,
{
    let rest = spec_process_to(bucket, k - 1, self_index, pos, positions, w);
    if i == k - 1 {
        let e = spec_entry(bucket[i], pos, positions, w);
        assert(rest.push(e)[rest.len() as int] == e);
    } else {
        lemma_process_to_contains(bucket, k - 1, i, self_index, pos, positions, w);
        let e = spec_entry(bucket[i], pos, positions, w);
        let idx = choose|idx: int| 0 <= idx < rest.len() && rest[idx] == e;
        if spec_entry_ok(bucket[k - 1], self_index, positions.len() as int) {
            let pushed = rest.push(spec_entry(bucket[k - 1], pos, positions, w));
            assert(pushed[idx] == e);
        }
    }
}

/// Reflexive containment: an agent stored in the cell containing `pos` is
/// reported by a query at `pos` from any other index, whichever scan
/// pattern the local density selects — the center cell is always scanned.
pub proof fn lemma_query_reflexive_containment(
    g: SpatialGrid,
    self_index: int,
    pos: Vec2i,
    positions: Seq<Vec2i>,
    w: int,
    j: usize,
)
    requires
        g.inv(),
        w >= 1,
        g.buckets()[spec_cell_index(pos, w, g.cell_size as int, g.grid_size as int)].contains(j),
        j as int != self_index,
        (j as int) < positions.len(),
    ensures
        g.spec_query(self_index, pos, positions, w).contains(spec_entry(j, pos, positions, w)),
{
    let gs = g.grid_size as int;
    let cs = g.cell_size as int;
    let cx = spec_grid_coord(pos.x as int, w, cs, gs);
    let cy = spec_grid_coord(pos.y as int, w, cs, gs);
    vstd::arithmetic::div_mod::lemma_small_mod(cx as nat, gs as nat);
    vstd::arithmetic::div_mod::lemma_small_mod(cy as nat, gs as nat);
    assert(spec_scan_cell(cx, cy, gs) == spec_cell_index(pos, w, cs, gs));
    let bucket = g.buckets()[spec_scan_cell(cx, cy, gs)];
    let i = choose|i: int| 0 <= i < bucket.len() && bucket[i] == j;
    lemma_process_to_contains(bucket, bucket.len() as int, i, self_index, pos, positions, w);
    let e = spec_entry(j, pos, positions, w);
    let center_entries = spec_process_cell(bucket, self_index, pos, positions, w);
    assert(center_entries.contains(e));
    let dense = bucket.len() > 0 && bucket.len() > 2 * g.avg_cell_population;
    if dense {
        let t1 = center_entries + g.scan_at(cx + 1, cy, self_index, pos, positions, w);
        lemma_add_contains_left(center_entries,
            g.scan_at(cx + 1, cy, self_index, pos, positions, w), e);
        let t2 = t1 + g.scan_at(cx + gs - 1, cy, self_index, pos, positions, w);
        lemma_add_contains_left(t1, g.scan_at(cx + gs - 1, cy, self_index, pos, positions, w), e);
        let t3 = t2 + g.scan_at(cx, cy + 1, self_index, pos, positions, w);
        lemma_add_contains_left(t2, g.scan_at(cx, cy + 1, self_index, pos, positions, w), e);
        lemma_add_contains_left(t3, g.scan_at(cx, cy + gs - 1, self_index, pos, positions, w), e);
    } else {
        let t1 = center_entries + g.scan_at(cx + gs - 1, cy + gs - 1, self_index, pos, positions,
            w);
        lemma_add_contains_left(center_entries,
            g.scan_at(cx + gs - 1, cy + gs - 1, self_index, pos, positions, w), e);
        let t2 = t1 + g.scan_at(cx, cy + gs - 1, self_index, pos, positions, w);
        lemma_add_contains_left(t1, g.scan_at(cx, cy + gs - 1, self_index, pos, positions, w), e);
        let t3 = t2 + g.scan_at(cx + 1, cy + gs - 1, self_index, pos, positions, w);
        lemma_add_contains_left(t2, g.scan_at(cx + 1, cy + gs - 1, self_index, pos, positions, w),
            e);
        let t4 = t3 + g.scan_at(cx + gs - 1, cy, self_index, pos, positions, w);
        lemma_add_contains_left(t3, g.scan_at(cx + gs - 1, cy, self_index, pos, positions, w), e);
        let t5 = t4 + g.scan_at(cx + 1, cy, self_index, pos, positions, w);
        lemma_add_contains_left(t4, g.scan_at(cx + 1, cy, self_index, pos, positions, w), e);
        let t6 = t5 + g.scan_at(cx + gs - 1, cy + 1, self_index, pos, positions, w);
        lemma_add_contains_left(t5, g.scan_at(cx + gs - 1, cy + 1, self_index, pos, positions, w),
            e);
        let t7 = t6 + g.scan_at(cx, cy + 1, self_index, pos, positions, w);
        lemma_add_contains_left(t6, g.scan_at(cx, cy + 1, self_index, pos, positions, w), e);
        lemma_add_contains_left(t7, g.scan_at(cx + 1, cy + 1, self_index, pos, positions, w), e);
    }
}

/// `cy * gs + cx` addresses a cell when both coordinates are in range.
pub proof fn lemma_row_major_in_range(cx: int, cy: int, gs: int)
    requires
        0 <= cx < gs,
        0 <= cy < gs,
    ensures
        0 <= cy * gs + cx < gs * gs,
{
    assert(0 <= cy * gs + cx < gs * gs) by (nonlinear_arith)
        requires
            0 <= cx < gs,
            0 <= cy < gs,
    ;
}

} // verus!
