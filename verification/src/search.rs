//! The spatial-hash neighbor index.
//!
//! The grid is ephemeral: it is rebuilt from scratch every tick from the
//! (clamped) predicted positions, consumed by the density and force passes,
//! and discarded.  It consists of an array of `(cell_id, particle_index)`
//! pairs sorted by cell id, and a `lookups` table indexed by cell id holding
//! `(start_offset, count)` into the sorted pair array.
//!
//! The cell id is a direct linear index `y * cells_per_row + x` (not a
//! hash with collisions), so out-of-range coordinates are clamped into the
//! grid before hashing.  Neighbor enumeration visits the 3x3 block of cells
//! around a query position; that block catches every particle within one
//! influence radius provided `cell_size >= influence_radius`, which the
//! parameter validation enforces.

use vstd::prelude::*;
use vstd::seq_lib::group_to_multiset_ensures;
use crate::fixed::{Vec2Fx, div_pos};
use crate::constants::{SimulationParams, MAX_CELLS};

verus! {

/// The grid column or row of a non-negative coordinate: `floor(pos / cell)`.
pub open spec fn coord_of(pos: int, cell_size: int) -> int {
    pos / cell_size
}

/// The grid column or row, clamped into `[0, extent)` so that a position on
/// the far world edge still falls in the last cell.
pub open spec fn clamp_coord(pos: int, cell_size: int, extent: int) -> int {
    let c = coord_of(pos, cell_size);
    if c >= extent {
        extent - 1
    } else {
        c
    }
}

/// The linear cell id of a position in a `gw` by `gh` grid.
pub open spec fn cell_id_of(p: Vec2Fx, cell_size: int, gw: int, gh: int) -> int {
    clamp_coord(p.y as int, cell_size, gh) * gw + clamp_coord(p.x as int, cell_size, gw)
}

/// Two grid cells are adjacent when they differ by at most one column and
/// one row; the 3x3 block around a query cell is exactly its adjacent cells.
pub open spec fn adjacent(cx1: int, cy1: int, cx2: int, cy2: int) -> bool {
    &&& -1 <= cx1 - cx2 <= 1
    &&& -1 <= cy1 - cy2 <= 1
}

/// How many entries of `s` carry cell id `c`.
pub open spec fn count_ids(s: Seq<(u32, usize)>, c: int) -> int
    decreases s.len(),
{
    if s.len() == 0 {
        0
    } else {
        count_ids(s.drop_last(), c) + if s.last().0 == c {
            1int
        } else {
            0int
        }
    }
}

/// The pair array is sorted by cell id.
pub open spec fn sorted_by_id(s: Seq<(u32, usize)>) -> bool {
    forall|k1: int, k2: int| 0 <= k1 < k2 < s.len() ==> (#[trigger] s[k1]).0 <= (#[trigger] s[k2]).0
}

/// A linear cell id stays below the cell count.
pub proof fn lemma_cell_id_bound(cx: int, cy: int, gw: int, gh: int)
    requires
        0 <= cx < gw,
        0 <= cy < gh,
    ensures
        0 <= cy * gw + cx < gw * gh,
{
    assert((0 <= cx < gw && 0 <= cy < gh) ==> (0 <= cy * gw + cx < gw * gh)) by (nonlinear_arith);
}

/// Distinct in-range coordinates get distinct linear cell ids.
pub proof fn lemma_cell_id_injective(cx1: int, cy1: int, cx2: int, cy2: int, gw: int)
    requires
        0 <= cx1 < gw,
        0 <= cx2 < gw,
        0 <= cy1,
        0 <= cy2,
        cy1 * gw + cx1 == cy2 * gw + cx2,
    ensures
        cx1 == cx2,
        cy1 == cy2,
{
    assert((0 <= cx1 < gw && 0 <= cx2 < gw && 0 <= cy1 && 0 <= cy2 && cy1 * gw + cx1 == cy2 * gw
        + cx2) ==> (cx1 == cx2 && cy1 == cy2)) by (nonlinear_arith);
}

/// The grid coordinate of a position: componentwise `floor(pos / cell)`.
pub fn grid_coord(pos: Vec2Fx, params: &SimulationParams) -> (r: (u32, u32))
    requires
        0 <= pos.x,
        0 <= pos.y,
        params.cell_size >= 1,
        coord_of(pos.x as int, params.cell_size as int) < 0x1_0000_0000,
        coord_of(pos.y as int, params.cell_size as int) < 0x1_0000_0000,
    ensures
        r.0 as int == coord_of(pos.x as int, params.cell_size as int),
        r.1 as int == coord_of(pos.y as int, params.cell_size as int),
{
    let cx = div_pos(pos.x, params.cell_size);
    let cy = div_pos(pos.y, params.cell_size);
    (cx as u32, cy as u32)
}

/// The linear cell id of a grid coordinate:
/// `y * cells_per_row + x`, with `cells_per_row = floor(world_x / cell)`.
pub fn hash(grid_coord: (u32, u32), world_size: Vec2Fx, params: &SimulationParams) -> (r: u32)
    requires
        params.cell_size >= 1,
        0 <= world_size.x,
        0 <= world_size.y,
        (grid_coord.0 as int) < coord_of(world_size.x as int, params.cell_size as int),
        (grid_coord.1 as int) < coord_of(world_size.y as int, params.cell_size as int),
        coord_of(world_size.x as int, params.cell_size as int) * coord_of(
            world_size.y as int,
            params.cell_size as int,
        ) <= MAX_CELLS,
    ensures
        r as int == (grid_coord.1 as int) * coord_of(world_size.x as int, params.cell_size as int)
            + grid_coord.0 as int,
        r < MAX_CELLS,
{
    let cells_per_row = div_pos(world_size.x, params.cell_size);
    proof {
        let gw = coord_of(world_size.x as int, params.cell_size as int);
        let gh = coord_of(world_size.y as int, params.cell_size as int);
        lemma_cell_id_bound(grid_coord.0 as int, grid_coord.1 as int, gw, gh);
    }
    (grid_coord.1 as i64 * cells_per_row + grid_coord.0 as i64) as u32
}

/// The cell offsets of the 3x3 neighbor block, as a fixed sequence.
pub open spec fn neighbour_offsets() -> Seq<(i32, i32)> {
    seq![
        (0i32, 0i32),
        (-1i32, 0i32),
        (1i32, 0i32),
        (0i32, -1i32),
        (0i32, 1i32),
        (1i32, 1i32),
        (-1i32, -1i32),
        (1i32, -1i32),
        (-1i32, 1i32),
    ]
}

/// The nine cell offsets visited around a query cell: the cell itself and
/// its eight neighbors.
pub fn neighbours() -> (r: [(i32, i32); 9])
    ensures
        r@ == neighbour_offsets(),
{
    let r: [(i32, i32); 9] = [
        (0, 0),
        (-1, 0),
        (1, 0),
        (0, -1),
        (0, 1),
        (1, 1),
        (-1, -1),
        (1, -1),
        (-1, 1),
    ];
    proof {
        assert(r@ =~= neighbour_offsets());
    }
    r
}

/// Scan the sorted pair array once and record, for every distinct cell id,
/// where its run starts and how long it is.  Cells with no particles keep
/// `(0, 0)`.
pub fn find_cell_start(lookups: &mut Vec<(usize, usize)>, cells: &Vec<(u32, usize)>)
    requires
        forall|k: int|
            0 <= k < cells@.len() ==> (#[trigger] cells@[k]).0 < old(lookups)@.len(),
        forall|c: int|
            0 <= c < old(lookups)@.len() ==> (#[trigger] old(lookups)@[c]) == (0usize, 0usize),
    ensures
        final(lookups)@.len() == old(lookups)@.len(),
        forall|c: int|
            0 <= c < final(lookups)@.len() ==> (#[trigger] final(lookups)@[c]).1 as int
                == count_ids(cells@, c),
        forall|c: int|
            0 <= c < final(lookups)@.len() && final(lookups)@[c].1 > 0 ==> {
                let s = (#[trigger] final(lookups)@[c]).0 as int;
                &&& s < cells@.len()
                &&& cells@[s].0 == c
                &&& forall|k: int| 0 <= k < s ==> (#[trigger] cells@[k]).0 != c
            },
        forall|c: int|
            0 <= c < final(lookups)@.len() && final(lookups)@[c].1 == 0 ==> (
            #[trigger] final(lookups)@[c]) == (0usize, 0usize),
{
    let n = cells.len();
    let mut k: usize = 0;
    while k < n
        invariant
            n == cells@.len(),
            lookups@.len() == old(lookups)@.len(),
            k <= n,
            forall|kk: int|
                0 <= kk < cells@.len() ==> (#[trigger] cells@[kk]).0 < lookups@.len(),
            forall|c: int|
                0 <= c < lookups@.len() ==> (#[trigger] lookups@[c]).1 as int == count_ids(
                    cells@.take(k as int),
                    c,
                ),
            forall|c: int|
                0 <= c < lookups@.len() && lookups@[c].1 > 0 ==> {
                    let s = (#[trigger] lookups@[c]).0 as int;
                    &&& s < k
                    &&& cells@[s].0 == c
                    &&& forall|kk: int| 0 <= kk < s ==> (#[trigger] cells@[kk]).0 != c
                },
            forall|c: int|
                0 <= c < lookups@.len() && lookups@[c].1 == 0 ==> (#[trigger] lookups@[c]) == (
                0usize,
                0usize,
                ),
        decreases n - k,
    {
        let (cid, _pidx) = cells[k];
        let c = cid as usize;
        let entry = lookups[c];
        let start = if entry.1 == 0 {
            k
        } else {
            entry.0
        };
        proof {
            lemma_count_ids_le_len(cells@.take(k as int), cid as int);
            if entry.1 == 0 {
                lemma_count_zero(cells@.take(k as int), cid as int);
                assert(forall|kk: int|
                    0 <= kk < k ==> (#[trigger] cells@[kk]) == cells@.take(k as int)[kk]);
            }
            assert(cells@.take(k as int + 1).drop_last() =~= cells@.take(k as int));
            assert(cells@.take(k as int + 1).last() == cells@[k as int]);
            assert forall|c2: int| 0 <= c2 < lookups@.len() implies count_ids(
                cells@.take(k as int + 1),
                c2,
            ) == count_ids(cells@.take(k as int), c2) + if cells@[k as int].0 == c2 {
                1int
            } else {
                0int
            } by {
                assert(count_ids(cells@.take(k as int + 1), c2) == count_ids(
                    cells@.take(k as int + 1).drop_last(),
                    c2,
                ) + if cells@.take(k as int + 1).last().0 == c2 {
                    1int
                } else {
                    0int
                });
            }
        }
        lookups.set(c, (start, entry.1 + 1));
        k = k + 1;
    }
    proof {
        assert(cells@.take(n as int) =~= cells@);
    }
}

/// A cell id with count zero occurs nowhere in the array.
pub proof fn lemma_count_zero(s: Seq<(u32, usize)>, c: int)
    requires
        count_ids(s, c) == 0,
    ensures
        forall|k: int| 0 <= k < s.len() ==> (#[trigger] s[k]).0 != c,
    decreases s.len(),
{
    if s.len() > 0 {
        lemma_count_ids_le_len(s.drop_last(), c);
        assert(count_ids(s.drop_last(), c) == 0);
        lemma_count_zero(s.drop_last(), c);
        assert forall|k: int| 0 <= k < s.len() implies (#[trigger] s[k]).0 != c by {
            if k < s.len() - 1 {
                assert(s.drop_last()[k] == s[k]);
            } else {
                assert(s[k] == s.last());
            }
        }
    }
}

/// No cell id occurs more often than the array is long.
pub proof fn lemma_count_ids_le_len(s: Seq<(u32, usize)>, c: int)
    ensures
        0 <= count_ids(s, c) <= s.len(),
    decreases s.len(),
{
    if s.len() > 0 {
        lemma_count_ids_le_len(s.drop_last(), c);
    }
}

/// Sort the pair array by cell id (insertion sort, stable).  The result
/// holds exactly the pairs that went in.
pub fn sort_pairs(v: &mut Vec<(u32, usize)>)
    ensures
        final(v)@.len() == old(v)@.len(),
        sorted_by_id(final(v)@),
        final(v)@.to_multiset() == old(v)@.to_multiset(),
{
    broadcast use group_to_multiset_ensures;

    let n = v.len();
    let mut i: usize = 1;
    while i < n
        invariant
            n == v@.len(),
            1 <= i,
            v@.to_multiset() == old(v)@.to_multiset(),
            forall|k1: int, k2: int|
                0 <= k1 < k2 < i ==> (#[trigger] v@[k1]).0 <= (#[trigger] v@[k2]).0,
        decreases n - i,
    {
        let mut j: usize = i;
        while j > 0 && v[j - 1].0 > v[j].0
            invariant
                n == v@.len(),
                0 <= j <= i < n,
                v@.to_multiset() == old(v)@.to_multiset(),
                forall|k1: int, k2: int|
                    0 <= k1 < k2 <= i && k2 != j ==> (#[trigger] v@[k1]).0 <= (#[trigger] v@[k2]).0,
            decreases j,
        {
            let a = v[j - 1];
            let b = v[j];
            let ghost before = v@;
            v.set(j - 1, b);
            v.set(j, a);
            proof {
                assert(v@ =~= before.update(j - 1, before[j as int]).update(
                    j as int,
                    before[j as int - 1],
                ));
                lemma_swap_multiset(before, j as int - 1, j as int);
            }
            j = j - 1;
        }
        i = i + 1;
    }
}

/// The least index at or after `k` where the run of cell id `c` ends.
pub open spec fn run_end(cells: Seq<(u32, usize)>, c: int, k: int) -> int
    decreases cells.len() - k,
{
    if k < cells.len() && cells[k].0 == c {
        run_end(cells, c, k + 1)
    } else {
        k
    }
}

/// `run_end` delimits a run: everything from `k` up to it carries `c`, and
/// the entry at it (if any) does not.
pub proof fn lemma_run_end(cells: Seq<(u32, usize)>, c: int, k: int)
    requires
        0 <= k <= cells.len(),
    ensures
        k <= run_end(cells, c, k) <= cells.len(),
        forall|m: int| k <= m < run_end(cells, c, k) ==> (#[trigger] cells[m]).0 == c,
        run_end(cells, c, k) < cells.len() ==> cells[run_end(cells, c, k)].0 != c,
    decreases cells.len() - k,
{
    if k < cells.len() && cells[k].0 == c {
        lemma_run_end(cells, c, k + 1);
    }
}

/// If the occurrences of `c` are exactly the indices of `[s, e)`, then the
/// count of `c` is the length of that interval.
pub proof fn lemma_count_interval(cells: Seq<(u32, usize)>, c: int, s: int, e: int)
    requires
        0 <= s <= e <= cells.len(),
        forall|k: int| 0 <= k < cells.len() ==> ((#[trigger] cells[k]).0 == c <==> s <= k < e),
    ensures
        count_ids(cells, c) == e - s,
    decreases cells.len(),
{
    if cells.len() == 0 {
    } else {
        let last = cells.len() - 1;
        let d = cells.drop_last();
        if cells[last].0 == c {
            assert(e == cells.len());
            assert(forall|k: int| 0 <= k < d.len() ==> (#[trigger] d[k]) == cells[k]);
            lemma_count_interval(d, c, s, e - 1);
        } else {
            if s < e {
                assert(cells[s].0 == c);
                assert(e <= last);
                assert(forall|k: int| 0 <= k < d.len() ==> (#[trigger] d[k]) == cells[k]);
                lemma_count_interval(d, c, s, e);
            } else {
                assert(forall|k: int| 0 <= k < d.len() ==> (#[trigger] d[k]) == cells[k]);
                lemma_count_interval(d, c, 0, 0);
            }
        }
    }
}

/// In a sorted pair array, the entries carrying cell id `c` are exactly the
/// contiguous run starting at the first occurrence, of length the count.
pub proof fn lemma_sorted_run(cells: Seq<(u32, usize)>, c: int, s: int)
    requires
        sorted_by_id(cells),
        0 <= s < cells.len(),
        cells[s].0 == c,
        forall|k: int| 0 <= k < s ==> (#[trigger] cells[k]).0 != c,
    ensures
        s + count_ids(cells, c) <= cells.len(),
        forall|k: int|
            0 <= k < cells.len() ==> ((#[trigger] cells[k]).0 == c <==> s <= k < s + count_ids(
                cells,
                c,
            )),
    decreases cells.len(),
{
    let e = run_end(cells, c, s);
    lemma_run_end(cells, c, s);
    assert forall|k: int| 0 <= k < cells.len() implies ((#[trigger] cells[k]).0 == c <==> s <= k
        < e) by {
        if k >= e {
            if e < cells.len() {
                assert(cells[e].0 != c);
                assert(cells[s].0 <= cells[e].0);
                if k > e {
                    assert(cells[e].0 <= cells[k].0);
                }
                assert(cells[k].0 != c);
            }
        }
    }
    lemma_count_interval(cells, c, s, e);
}

/// A pair of positions within one influence radius of each other always
/// lands in adjacent grid cells, provided the cell size is at least the
/// influence radius.  This is why the 3x3 neighbor scan is complete: no
/// within-radius pair is ever missed.
pub proof fn lemma_within_radius_adjacent(
    p: Vec2Fx,
    q: Vec2Fx,
    h: int,
    cell_size: int,
    gw: int,
    gh: int,
)
    requires
        0 <= p.x,
        0 <= p.y,
        0 <= q.x,
        0 <= q.y,
        1 <= h <= cell_size,
        1 <= gw,
        1 <= gh,
        crate::kernels::dist_sq_raw(p, q) <= h * h,
    ensures
        adjacent(
            clamp_coord(p.x as int, cell_size, gw),
            clamp_coord(p.y as int, cell_size, gh),
            clamp_coord(q.x as int, cell_size, gw),
            clamp_coord(q.y as int, cell_size, gh),
        ),
{
    let dx = p.x - q.x;
    let dy = p.y - q.y;
    assert(-h <= dx <= h && -h <= dy <= h) by (nonlinear_arith)
        requires
            dx * dx + dy * dy <= h * h,
            h >= 1,
    ;
    lemma_coord_diff(p.x as int, q.x as int, cell_size, gw);
    lemma_coord_diff(p.y as int, q.y as int, cell_size, gh);
}

/// Positions within one cell size of each other have clamped grid
/// coordinates that differ by at most one.
proof fn lemma_coord_diff(a: int, b: int, cell_size: int, extent: int)
    requires
        0 <= a,
        0 <= b,
        cell_size >= 1,
        extent >= 1,
        -cell_size <= a - b <= cell_size,
    ensures
        -1 <= clamp_coord(a, cell_size, extent) - clamp_coord(b, cell_size, extent) <= 1,
{
    vstd::arithmetic::div_mod::lemma_div_is_ordered(a, b + cell_size, cell_size);
    vstd::arithmetic::div_mod::lemma_div_is_ordered(b, a + cell_size, cell_size);
    vstd::arithmetic::div_mod::lemma_div_is_ordered(a, a + cell_size, cell_size);
    vstd::arithmetic::div_mod::lemma_div_is_ordered(b, b + cell_size, cell_size);
    vstd::arithmetic::div_mod::lemma_hoist_over_denominator(a, 1, cell_size as nat);
    vstd::arithmetic::div_mod::lemma_hoist_over_denominator(b, 1, cell_size as nat);
    vstd::arithmetic::div_mod::lemma_div_pos_is_pos(a, cell_size);
    vstd::arithmetic::div_mod::lemma_div_pos_is_pos(b, cell_size);
    assert(a / cell_size <= b / cell_size + 1);
    assert(b / cell_size <= a / cell_size + 1);
}

/// Swapping two entries of a sequence keeps its multiset of values.
pub proof fn lemma_swap_multiset(s: Seq<(u32, usize)>, a: int, b: int)
    requires
        0 <= a < s.len(),
        0 <= b < s.len(),
        a != b,
    ensures
        s.update(a, s[b]).update(b, s[a]).to_multiset() == s.to_multiset(),
{
    broadcast use group_to_multiset_ensures;
    broadcast use vstd::seq_lib::to_multiset_update;
    broadcast use vstd::multiset::group_multiset_axioms;

    let s1 = s.update(a, s[b]);
    let s2 = s1.update(b, s[a]);
    assert(s1[b] == s[b]);
    assert(s1.to_multiset() =~= s.to_multiset().remove(s[a]).insert(s[b]));
    assert(s2.to_multiset() =~= s1.to_multiset().remove(s1[b]).insert(s[a]));
    assert(s2.to_multiset() =~= s.to_multiset().remove(s[a]).insert(s[b]).remove(s[b]).insert(
        s[a],
    ));
    assert(s2.to_multiset() =~= s.to_multiset());
}

/// The per-particle cell ids of a set of predicted positions.
pub open spec fn grid_ids(preds: Seq<Vec2Fx>, cell_size: int, gw: int, gh: int) -> Seq<int> {
    Seq::new(preds.len(), |j: int| cell_id_of(preds[j], cell_size, gw, gh))
}

/// The per-tick spatial index: the sorted `(cell_id, particle_index)` pair
/// array, the `lookups` run table, and the grid dimensions.
pub struct SpatialGrid {
    /// `(cell_id, particle_index)` pairs, one per particle, sorted by id.
    pub cells: Vec<(u32, usize)>,
    /// Per cell id: `(start_offset, count)` of its run in `cells`.
    pub lookups: Vec<(usize, usize)>,
    /// Number of grid columns, `floor(world_x / cell_size)`.
    pub grid_width: usize,
    /// Number of grid rows, `floor(world_y / cell_size)`.
    pub grid_height: usize,
}

impl SpatialGrid {
    /// The index is well formed for the given per-particle cell ids: every
    /// particle appears exactly once in the sorted pair array under its own
    /// cell id, and `lookups` delimits exactly the run of each cell id.
    pub open spec fn wf(self, ids: Seq<int>) -> bool {
        &&& 1 <= self.grid_width as int
        &&& 1 <= self.grid_height as int
        &&& self.lookups@.len() == self.grid_width as int * self.grid_height as int
        &&& self.lookups@.len() <= MAX_CELLS
        &&& self.cells@.len() == ids.len()
        &&& sorted_by_id(self.cells@)
        &&& (forall|j: int| 0 <= j < ids.len() ==> 0 <= #[trigger] ids[j] < self.lookups@.len())
        &&& (forall|k: int|
            0 <= k < self.cells@.len() ==> (#[trigger] self.cells@[k]).1 < ids.len()
                && self.cells@[k].0 as int == ids[self.cells@[k].1 as int])
        &&& (forall|k1: int, k2: int|
            0 <= k1 < k2 < self.cells@.len() ==> (#[trigger] self.cells@[k1]).1 != (
            #[trigger] self.cells@[k2]).1)
        &&& (forall|j: int| #![trigger self.entry_of(j)]
            0 <= j < ids.len() ==> {
                let k = self.entry_of(j);
                &&& 0 <= k < self.cells@.len()
                &&& self.cells@[k].1 == j
                &&& self.cells@[k].0 as int == ids[j]
            })
        &&& (forall|c: int|
            0 <= c < self.lookups@.len() ==> {
                let s = (#[trigger] self.lookups@[c]).0 as int;
                let cnt = self.lookups@[c].1 as int;
                &&& cnt == count_ids(self.cells@, c)
                &&& (cnt > 0 ==> s + cnt <= self.cells@.len() && (forall|k: int|
                    0 <= k < self.cells@.len() ==> ((#[trigger] self.cells@[k]).0 == c <==> s <= k
                        < s + cnt)))
            })
    }

    /// The position in the sorted pair array where particle `j` stands.
    pub open spec fn entry_of(self, j: int) -> int {
        choose|k: int| 0 <= k < self.cells@.len() && (#[trigger] self.cells@[k]).1 == j
    }

    /// Build the index from the clamped predicted positions: compute each
    /// particle's cell id, sort the pairs by id, and scan once to fill the
    /// run table.
    pub fn build(preds: &Vec<Vec2Fx>, params: &SimulationParams, world_size: Vec2Fx) -> (g:
        SpatialGrid)
        requires
            params.spec_valid(world_size),
            forall|j: int|
                0 <= j < preds@.len() ==> 0 <= (#[trigger] preds@[j]).x <= world_size.x && 0
                    <= preds@[j].y <= world_size.y,
        ensures
            g.grid_width as int == coord_of(world_size.x as int, params.cell_size as int),
            g.grid_height as int == coord_of(world_size.y as int, params.cell_size as int),
            g.wf(
                grid_ids(
                    preds@,
                    params.cell_size as int,
                    g.grid_width as int,
                    g.grid_height as int,
                ),
            ),
    {
        let cell = params.cell_size;
        let gw64 = div_pos(world_size.x, cell);
        let gh64 = div_pos(world_size.y, cell);
        proof {
            vstd::arithmetic::div_mod::lemma_div_by_self(cell as int);
            vstd::arithmetic::div_mod::lemma_div_is_ordered(
                cell as int,
                world_size.x as int,
                cell as int,
            );
            vstd::arithmetic::div_mod::lemma_div_is_ordered(
                cell as int,
                world_size.y as int,
                cell as int,
            );
            assert(gw64 as int <= gw64 as int * gh64 as int && gh64 as int <= gw64 as int * gh64
                as int) by (nonlinear_arith)
                requires
                    gw64 >= 1,
                    gh64 >= 1,
            ;
        }
        let total64 = gw64 * gh64;
        let gw = gw64 as usize;
        let gh = gh64 as usize;
        let total = total64 as usize;
        let ghost cs = cell as int;
        let ghost ids = grid_ids(preds@, cs, gw as int, gh as int);
        let n = preds.len();

        let mut cells: Vec<(u32, usize)> = Vec::new();
        let mut i: usize = 0;
        while i < n
            invariant
                n == preds@.len(),
                i <= n,
                cells@.len() == i,
                cell == params.cell_size,
                cs == cell as int,
                1 <= cell,
                1 <= gw64,
                1 <= gh64,
                gw64 as int == coord_of(world_size.x as int, cs),
                gh64 as int == coord_of(world_size.y as int, cs),
                gw as int == gw64 as int,
                gh as int == gh64 as int,
                gw64 as int * gh64 as int <= MAX_CELLS,
                total as int == gw64 as int * gh64 as int,
                ids == grid_ids(preds@, cs, gw as int, gh as int),
                forall|j: int|
                    0 <= j < preds@.len() ==> 0 <= (#[trigger] preds@[j]).x <= world_size.x && 0
                        <= preds@[j].y <= world_size.y,
                forall|k: int|
                    0 <= k < i ==> (#[trigger] cells@[k]).0 as int == ids[k] && cells@[k].1 == k,
            decreases n - i,
        {
            let p = preds[i];
            let qx = div_pos(p.x, cell);
            let qy = div_pos(p.y, cell);
            let cx = if qx >= gw64 {
                gw64 - 1
            } else {
                qx
            };
            let cy = if qy >= gh64 {
                gh64 - 1
            } else {
                qy
            };
            proof {
                lemma_cell_id_bound(cx as int, cy as int, gw64 as int, gh64 as int);
            }
            let id = cy * gw64 + cx;
            cells.push((id as u32, i));
            proof {
                assert(cx as int == clamp_coord(p.x as int, cs, gw as int));
                assert(cy as int == clamp_coord(p.y as int, cs, gh as int));
                assert(id as int == cell_id_of(p, cs, gw as int, gh as int));
                assert(ids[i as int] == id as int);
            }
            i = i + 1;
        }

        proof {
            assert forall|k1: int, k2: int|
                0 <= k1 < cells@.len() && 0 <= k2 < cells@.len() && k1 != k2 implies cells@[k1]
                != cells@[k2] by {
                assert(cells@[k1].1 == k1 && cells@[k2].1 == k2);
            }
            assert(cells@.no_duplicates());
            assert forall|j: int| 0 <= j < ids.len() implies 0 <= #[trigger] ids[j] < total
                as int by {
                let p = preds@[j];
                lemma_cell_id_bound(
                    clamp_coord(p.x as int, cs, gw as int),
                    clamp_coord(p.y as int, cs, gh as int),
                    gw as int,
                    gh as int,
                );
            }
        }
        let ghost orig = cells@;
        sort_pairs(&mut cells);
        proof {
            broadcast use group_to_multiset_ensures;

            orig.lemma_multiset_has_no_duplicates();
            cells@.lemma_multiset_has_no_duplicates_conv();
            assert forall|k: int|
                0 <= k < cells@.len() implies (#[trigger] cells@[k]).1 < ids.len()
                && cells@[k].0 as int == ids[cells@[k].1 as int] by {
                assert(cells@.contains(cells@[k]));
                assert(cells@.to_multiset().count(cells@[k]) > 0);
                assert(orig.to_multiset().count(cells@[k]) > 0);
                assert(orig.contains(cells@[k]));
                let j = choose|j: int| 0 <= j < orig.len() && orig[j] == cells@[k];
                assert(orig[j].1 == j && orig[j].0 as int == ids[j]);
            }
            assert forall|k1: int, k2: int|
                0 <= k1 < k2 < cells@.len() implies (#[trigger] cells@[k1]).1 != (
            #[trigger] cells@[k2]).1 by {
                if cells@[k1].1 == cells@[k2].1 {
                    let j = cells@[k1].1 as int;
                    assert(cells@[k1].0 as int == ids[j] && cells@[k2].0 as int == ids[j]);
                    assert(cells@[k1] == cells@[k2]);
                }
            }
        }

        let mut lookups: Vec<(usize, usize)> = Vec::new();
        let mut c: usize = 0;
        while c < total
            invariant
                c <= total,
                lookups@.len() == c,
                forall|cc: int| 0 <= cc < c ==> (#[trigger] lookups@[cc]) == (0usize, 0usize),
            decreases total - c,
        {
            lookups.push((0, 0));
            c = c + 1;
        }

        find_cell_start(&mut lookups, &cells);

        proof {
            assert forall|cc: int|
                0 <= cc < lookups@.len() && lookups@[cc].1 > 0 implies {
                let s = (#[trigger] lookups@[cc]).0 as int;
                let cnt = lookups@[cc].1 as int;
                s + cnt <= cells@.len() && (forall|k: int|
                    0 <= k < cells@.len() ==> ((#[trigger] cells@[k]).0 == cc <==> s <= k < s
                        + cnt))
            } by {
                let s = lookups@[cc].0 as int;
                lemma_sorted_run(cells@, cc, s);
            }
        }

        let ghost cseq = cells@;
        let g = SpatialGrid { cells, lookups, grid_width: gw, grid_height: gh };
        proof {
            assert(g.cells@ == cseq);
            let gids = grid_ids(
                preds@,
                params.cell_size as int,
                g.grid_width as int,
                g.grid_height as int,
            );
            assert(gids =~= ids);
            assert forall|j: int| #![trigger g.entry_of(j)] 0 <= j < gids.len() implies {
                let k = g.entry_of(j);
                &&& 0 <= k < g.cells@.len()
                &&& g.cells@[k].1 == j
                &&& g.cells@[k].0 as int == gids[j]
            } by {
                broadcast use group_to_multiset_ensures;

                assert(orig[j].1 == j);
                assert(orig.contains(orig[j]));
                assert(orig.to_multiset().count(orig[j]) > 0);
                assert(g.cells@.to_multiset().count(orig[j]) > 0);
                assert(g.cells@.contains(orig[j]));
                let k0 = choose|k: int| 0 <= k < g.cells@.len() && g.cells@[k] == orig[j];
                assert(g.cells@[k0].1 == j);
                assert(exists|k: int|
                    0 <= k < g.cells@.len() && (#[trigger] g.cells@[k]).1 == j);
                let k = g.entry_of(j);
                assert(0 <= k < g.cells@.len() && g.cells@[k].1 == j);
                assert(g.cells@[k].0 as int == ids[g.cells@[k].1 as int]);
            }
            assert(1 <= g.grid_width as int);
            assert(1 <= g.grid_height as int);
            assert(g.lookups@.len() == g.grid_width as int * g.grid_height as int);
            assert(g.lookups@.len() <= MAX_CELLS);
            assert(g.cells@.len() == gids.len());
            assert(sorted_by_id(g.cells@));
            assert(forall|j: int| 0 <= j < gids.len() ==> 0 <= #[trigger] gids[j] < g.lookups@.len());
            assert(forall|k: int|
                0 <= k < g.cells@.len() ==> (#[trigger] g.cells@[k]).1 < gids.len()
                    && g.cells@[k].0 as int == gids[g.cells@[k].1 as int]);
            assert(forall|k1: int, k2: int|
                0 <= k1 < k2 < g.cells@.len() ==> (#[trigger] g.cells@[k1]).1 != (
                #[trigger] g.cells@[k2]).1);
            assert(forall|c: int|
                0 <= c < g.lookups@.len() ==> {
                    let s = (#[trigger] g.lookups@[c]).0 as int;
                    let cnt = g.lookups@[c].1 as int;
                    &&& cnt == count_ids(g.cells@, c)
                    &&& (cnt > 0 ==> s + cnt <= g.cells@.len() && (forall|k: int|
                        0 <= k < g.cells@.len() ==> ((#[trigger] g.cells@[k]).0 == c <==> s <= k
                            < s + cnt)))
                });
            assert(g.wf(gids));
        }
        g
    }

    /// Enumerate the particles in the 3x3 block of cells around particle
    /// `i`'s cell: exactly the particles whose (clamped) cell is adjacent
    /// to `i`'s, each exactly once, in run order.
    pub fn neighbours_of(&self, preds: &Vec<Vec2Fx>, i: usize, params: &SimulationParams) -> (r:
        Vec<usize>)
        requires
            params.cell_size >= 1,
            self.wf(
                grid_ids(
                    preds@,
                    params.cell_size as int,
                    self.grid_width as int,
                    self.grid_height as int,
                ),
            ),
            i < preds@.len(),
            forall|j: int|
                0 <= j < preds@.len() ==> 0 <= (#[trigger] preds@[j]).x && 0 <= preds@[j].y,
        ensures
            r@.no_duplicates(),
            forall|k: int| 0 <= k < r@.len() ==> (#[trigger] r@[k]) < preds@.len(),
            forall|j: int| #![trigger preds@[j]]
                0 <= j < preds@.len() ==> (r@.contains(j as usize) <==> adjacent(
                    clamp_coord(preds@[j].x as int, params.cell_size as int, self.grid_width as int),
                    clamp_coord(
                        preds@[j].y as int,
                        params.cell_size as int,
                        self.grid_height as int,
                    ),
                    clamp_coord(preds@[i as int].x as int, params.cell_size as int, self.grid_width as int),
                    clamp_coord(
                        preds@[i as int].y as int,
                        params.cell_size as int,
                        self.grid_height as int,
                    ),
                )),
    {
        let ghost cs = params.cell_size as int;
        let ghost gwi = self.grid_width as int;
        let ghost ghi = self.grid_height as int;
        let ghost ids = grid_ids(preds@, cs, gwi, ghi);
        let ghost n = preds@.len();
        proof {
            assert(gwi <= gwi * ghi && ghi <= gwi * ghi) by (nonlinear_arith)
                requires
                    gwi >= 1,
                    ghi >= 1,
            ;
        }
        let gw64 = self.grid_width as i64;
        let gh64 = self.grid_height as i64;
        let cell = params.cell_size;
        let p = preds[i];
        let qx64 = div_pos(p.x, cell);
        let qy64 = div_pos(p.y, cell);
        let qx = if qx64 >= gw64 {
            gw64 - 1
        } else {
            qx64
        };
        let qy = if qy64 >= gh64 {
            gh64 - 1
        } else {
            qy64
        };
        proof {
            assert(qx as int == clamp_coord(preds@[i as int].x as int, cs, gwi));
            assert(qy as int == clamp_coord(preds@[i as int].y as int, cs, ghi));
        }
        let np = preds.len();
        let clen = self.cells.len();
        let offsets = neighbours();
        let mut out: Vec<usize> = Vec::new();
        let ghost mut done: Set<int> = Set::empty();
        let mut t: usize = 0;
        while t < 9
            invariant
                t <= 9,
                cs == params.cell_size as int,
                cell == params.cell_size,
                cell >= 1,
                gwi == self.grid_width as int,
                ghi == self.grid_height as int,
                gw64 as int == gwi,
                gh64 as int == ghi,
                1 <= gwi <= MAX_CELLS,
                1 <= ghi <= MAX_CELLS,
                n == preds@.len(),
                np as int == n,
                clen as int == self.cells@.len(),
                i < n,
                ids == grid_ids(preds@, cs, gwi, ghi),
                self.wf(ids),
                forall|j: int|
                    0 <= j < preds@.len() ==> 0 <= (#[trigger] preds@[j]).x && 0 <= preds@[j].y,
                offsets@ == neighbour_offsets(),
                qx as int == clamp_coord(preds@[i as int].x as int, cs, gwi),
                qy as int == clamp_coord(preds@[i as int].y as int, cs, ghi),
                0 <= (qx as int) < gwi,
                0 <= (qy as int) < ghi,
                out@.no_duplicates(),
                forall|k: int| 0 <= k < out@.len() ==> (#[trigger] out@[k]) < n,
                forall|j: int| #![trigger ids[j]]
                    0 <= j < n ==> (out@.contains(j as usize) <==> done.contains(ids[j])),
                forall|c: int|
                    #[trigger] done.contains(c) ==> exists|t2: int|
                        0 <= t2 < t && {
                            let o = #[trigger] neighbour_offsets()[t2];
                            &&& 0 <= qx + o.0 < gwi
                            &&& 0 <= qy + o.1 < ghi
                            &&& c == (qy + o.1) * gwi + (qx + o.0)
                        },
                forall|t2: int|
                    0 <= t2 < t ==> {
                        let o = #[trigger] neighbour_offsets()[t2];
                        (0 <= qx + o.0 < gwi && 0 <= qy + o.1 < ghi) ==> done.contains(
                            (qy + o.1) * gwi + (qx + o.0),
                        )
                    },
            decreases 9 - t,
        {
            let (ox, oy) = offsets[t];
            let nx = qx + ox as i64;
            let ny = qy + oy as i64;
            if 0 <= nx && nx < gw64 && 0 <= ny && ny < gh64 {
                proof {
                    lemma_cell_id_bound(nx as int, ny as int, gwi, ghi);
                }
                let cid = ny * gw64 + nx;
                let ghost cidi = cid as int;
                proof {
                    if done.contains(cidi) {
                        let t2 = choose|t2: int|
                            #![trigger neighbour_offsets()[t2]]
                            0 <= t2 < t && {
                                let o = neighbour_offsets()[t2];
                                &&& 0 <= qx + o.0 < gwi
                                &&& 0 <= qy + o.1 < ghi
                                &&& cidi == (qy + o.1) * gwi + (qx + o.0)
                            };
                        let o2 = neighbour_offsets()[t2];
                        lemma_cell_id_injective(
                            qx + o2.0,
                            qy + o2.1,
                            nx as int,
                            ny as int,
                            gwi,
                        );
                        assert(o2 == neighbour_offsets()[t as int]);
                        assert(false);
                    }
                }
                let entry = self.lookups[cid as usize];
                if entry.1 > 0 {
                    let s = entry.0;
                    let cnt = entry.1;
                    proof {
                        assert(s + cnt <= self.cells@.len());
                    }
                    let end = s + cnt;
                    let mut m = s;
                    while m < end
                        invariant
                            end as int == s + cnt,
                            s + cnt <= self.cells@.len(),
                            clen as int == self.cells@.len(),
                            s <= m <= s + cnt,
                            n == preds@.len(),
                            np as int == n,
                            ids == grid_ids(preds@, cs, gwi, ghi),
                            self.wf(ids),
                            0 <= cidi < self.lookups@.len(),
                            !done.contains(cidi),
                            forall|k: int|
                                0 <= k < self.cells@.len() ==> ((#[trigger] self.cells@[k]).0
                                    == cidi <==> s <= k < s + cnt),
                            out@.no_duplicates(),
                            forall|k: int| 0 <= k < out@.len() ==> (#[trigger] out@[k]) < n,
                            forall|j: int| #![trigger ids[j]]
                                0 <= j < n ==> (out@.contains(j as usize) <==> (done.contains(
                                    ids[j],
                                ) || (ids[j] == cidi && exists|k: int|
                                    s <= k < m && (#[trigger] self.cells@[k]).1 == j))),
                        decreases s + cnt - m,
                    {
                        let j = self.cells[m].1;
                        let ghost before = out@;
                        proof {
                            assert(self.cells@[m as int].0 == cidi);
                            assert(ids[j as int] == cidi);
                            if before.contains(j) {
                                if done.contains(ids[j as int]) {
                                    assert(false);
                                } else {
                                    let k = choose|k: int|
                                        s <= k < m && (#[trigger] self.cells@[k]).1 == j;
                                    assert(false);
                                }
                            }
                        }
                        out.push(j);
                        proof {
                            assert(out@ == before.push(j));
                            assert forall|k1: int, k2: int|
                                0 <= k1 < out@.len() && 0 <= k2 < out@.len() && k1 != k2 implies
                            out@[k1] != out@[k2] by {
                                if k1 < before.len() && k2 < before.len() {
                                    assert(before[k1] == out@[k1] && before[k2] == out@[k2]);
                                } else if k1 < before.len() {
                                    assert(out@[k2] == j && out@[k1] == before[k1]);
                                    assert(before.contains(before[k1]) == false || true);
                                    if out@[k1] == j {
                                        assert(before.contains(j));
                                    }
                                } else {
                                    assert(out@[k1] == j && out@[k2] == before[k2]);
                                    if out@[k2] == j {
                                        assert(before.contains(j));
                                    }
                                }
                            }
                            assert forall|jj: int| #![trigger ids[jj]] 0 <= jj < n implies (
                            out@.contains(jj as usize) <==> (done.contains(ids[jj]) || (ids[jj]
                                == cidi && exists|k: int|
                                s <= k < m + 1 && (#[trigger] self.cells@[k]).1 == jj))) by {
                                if out@.contains(jj as usize) {
                                    let kk = choose|kk: int|
                                        0 <= kk < out@.len() && out@[kk] == jj as usize;
                                    if kk < before.len() {
                                        assert(before.contains(jj as usize));
                                    } else {
                                        assert(jj as usize == j);
                                        assert(self.cells@[m as int].1 == jj);
                                    }
                                } else {
                                    assert(!before.contains(jj as usize)) by {
                                        if before.contains(jj as usize) {
                                            let kk = choose|kk: int|
                                                0 <= kk < before.len() && before[kk] == jj
                                                    as usize;
                                            assert(out@[kk] == jj as usize);
                                        }
                                    }
                                    if ids[jj] == cidi {
                                        if exists|k: int|
                                            s <= k < m + 1 && (#[trigger] self.cells@[k]).1
                                                == jj {
                                            let k = choose|k: int|
                                                s <= k < m + 1 && (#[trigger] self.cells@[k]).1
                                                    == jj;
                                            if k < m {
                                            } else {
                                                assert(self.cells@[m as int].1 == jj);
                                                assert(out@[before.len() as int] == j);
                                                assert(out@.contains(jj as usize));
                                            }
                                            assert(false);
                                        }
                                    }
                                }
                            }
                        }
                        m = m + 1;
                    }
                    proof {
                        assert forall|jj: int| #![trigger ids[jj]]
                            0 <= jj < n && ids[jj] == cidi implies exists|k: int|
                            s <= k < s + cnt && (#[trigger] self.cells@[k]).1 == jj by {
                            let k = self.entry_of(jj);
                            assert(0 <= k < self.cells@.len() && self.cells@[k].1 == jj);
                            assert(self.cells@[k].0 as int == ids[jj]);
                            assert(s <= k < s + cnt);
                        }
                        done = done.insert(cidi);
                    }
                } else {
                    proof {
                        assert(count_ids(self.cells@, cidi) == 0);
                        lemma_count_zero(self.cells@, cidi);
                        assert forall|jj: int| #![trigger ids[jj]] 0 <= jj < n implies ids[jj]
                            != cidi by {
                            if ids[jj] == cidi {
                                let k = self.entry_of(jj);
                                assert(0 <= k < self.cells@.len() && self.cells@[k].1 == jj);
                                assert(self.cells@[k].0 as int == cidi);
                            }
                        }
                        done = done.insert(cidi);
                    }
                }
            }
            t = t + 1;
        }
        proof {
            assert forall|j: int| #![trigger preds@[j]] 0 <= j < preds@.len() implies (
            out@.contains(j as usize) <==> adjacent(
                clamp_coord(preds@[j].x as int, cs, gwi),
                clamp_coord(preds@[j].y as int, cs, ghi),
                clamp_coord(preds@[i as int].x as int, cs, gwi),
                clamp_coord(preds@[i as int].y as int, cs, ghi),
            )) by {
                let cxj = clamp_coord(preds@[j].x as int, cs, gwi);
                let cyj = clamp_coord(preds@[j].y as int, cs, ghi);
                assert(ids[j] == cyj * gwi + cxj);
                assert(0 <= cxj < gwi && 0 <= cyj < ghi) by {
                    assert(preds@[j].x as int / cs >= 0) by {
                        vstd::arithmetic::div_mod::lemma_div_pos_is_pos(preds@[j].x as int, cs);
                    }
                    assert(preds@[j].y as int / cs >= 0) by {
                        vstd::arithmetic::div_mod::lemma_div_pos_is_pos(preds@[j].y as int, cs);
                    }
                }
                if out@.contains(j as usize) {
                    assert(done.contains(ids[j]));
                    let t2 = choose|t2: int|
                        #![trigger neighbour_offsets()[t2]]
                        0 <= t2 < 9 && {
                            let o = neighbour_offsets()[t2];
                            &&& 0 <= qx + o.0 < gwi
                            &&& 0 <= qy + o.1 < ghi
                            &&& ids[j] == (qy + o.1) * gwi + (qx + o.0)
                        };
                    let o = neighbour_offsets()[t2];
                    lemma_cell_id_injective(qx + o.0, qy + o.1, cxj, cyj, gwi);
                    assert(-1 <= o.0 <= 1 && -1 <= o.1 <= 1);
                }
                if adjacent(cxj, cyj, qx as int, qy as int) {
                    let dx = cxj - qx as int;
                    let dy = cyj - qy as int;
                    assert(exists|t2: int|
                        0 <= t2 < 9 && (#[trigger] neighbour_offsets()[t2]) == (
                        dx as i32,
                        dy as i32,
                    )) by {
                        if dx == 0 && dy == 0 {
                            assert(neighbour_offsets()[0] == (0i32, 0i32));
                        } else if dx == -1 && dy == 0 {
                            assert(neighbour_offsets()[1] == (-1i32, 0i32));
                        } else if dx == 1 && dy == 0 {
                            assert(neighbour_offsets()[2] == (1i32, 0i32));
                        } else if dx == 0 && dy == -1 {
                            assert(neighbour_offsets()[3] == (0i32, -1i32));
                        } else if dx == 0 && dy == 1 {
                            assert(neighbour_offsets()[4] == (0i32, 1i32));
                        } else if dx == 1 && dy == 1 {
                            assert(neighbour_offsets()[5] == (1i32, 1i32));
                        } else if dx == -1 && dy == -1 {
                            assert(neighbour_offsets()[6] == (-1i32, -1i32));
                        } else if dx == 1 && dy == -1 {
                            assert(neighbour_offsets()[7] == (1i32, -1i32));
                        } else {
                            assert(neighbour_offsets()[8] == (-1i32, 1i32));
                        }
                    }
                    let t2 = choose|t2: int|
                        0 <= t2 < 9 && (#[trigger] neighbour_offsets()[t2]) == (
                        dx as i32,
                        dy as i32,
                    );
                    let o = neighbour_offsets()[t2];
                    assert(qx + o.0 == cxj && qy + o.1 == cyj);
                    assert(done.contains(cyj * gwi + cxj));
                    assert(out@.contains(j as usize));
                }
            }
        }
        out
    }
}

} // verus!
