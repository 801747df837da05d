//! The movement executor and the tick orchestrator.
//!
//! Each unmoved cell is dispatched once per tick by material: sand tries a
//! damped vertical fall (probe depth `energy / 4 + 1`), then a single
//! diagonal step; water tries a full-energy vertical fall (probe depth
//! `energy + 1`), then a diagonal step, then a lateral spread of up to
//! [`SPREAD_FACTOR`] cells; rock only marks itself updated. A successful
//! straight or diagonal fall swaps the mover with the furthest legal
//! destination of the probed run; falling straight down gains one energy,
//! settling or moving laterally resets it to zero.

use vstd::prelude::*;

use crate::cell::{Cell, CellType};
use crate::rng::BitSource;
use crate::universe::{GridView, Universe};

verus! {

/// How many cells a liquid may travel sideways in one tick when blocked
/// below and diagonally.
pub const SPREAD_FACTOR: u32 = 3;

/// Energy gained by one successful straight-down fall. The counter sticks at
/// its ceiling instead of wrapping; no finite grid drives it anywhere near
/// that.
pub open spec fn bumped(e: u32) -> u32 {
    if e < u32::MAX {
        (e + 1) as u32
    } else {
        e
    }
}

/// How far down a solid mover probes in one tick: higher accumulated energy
/// probes further, damped by a divisor of 4.
pub open spec fn sand_fall_steps(e: u32) -> int {
    e as int / 4 + 1
}

/// How far down a liquid mover probes in one tick: its full energy, undamped.
pub open spec fn water_fall_steps(e: u32) -> int {
    e as int + 1
}

/// The straight-down candidate run: `(row + 1, col)` through
/// `(row + steps, col)`, nearest first.
pub open spec fn down_candidates(row: int, col: int, steps: int) -> Seq<(i64, i64)> {
    Seq::new(steps as nat, |i: int| (((row + 1 + i) as i64, col as i64)))
}

/// The two one-step diagonal-down candidates, ordered by the tie-break
/// choice (`left_first` probes `col - 1` before `col + 1`).
pub open spec fn diag_candidates(row: int, col: int, left_first: bool) -> Seq<(i64, i64)> {
    if left_first {
        seq![(((row + 1) as i64, (col - 1) as i64)), (((row + 1) as i64, (col + 1) as i64))]
    } else {
        seq![(((row + 1) as i64, (col + 1) as i64)), (((row + 1) as i64, (col - 1) as i64))]
    }
}

/// The lateral candidate run: up to [`SPREAD_FACTOR`] steps out on each side
/// of `(row, col)`, one whole side before the other by the tie-break choice,
/// nearest cell of each side first.
pub open spec fn lateral_candidates(row: int, col: int, left_first: bool) -> Seq<(i64, i64)> {
    let lefts = Seq::new(
        SPREAD_FACTOR as nat,
        |i: int| ((row as i64, (col - 1 - i) as i64)),
    );
    let rights = Seq::new(
        SPREAD_FACTOR as nat,
        |i: int| ((row as i64, (col + 1 + i) as i64)),
    );
    if left_first {
        lefts + rights
    } else {
        rights + lefts
    }
}

/// Build [`down_candidates`] as a vector.
fn build_down_candidates(row: u32, col: u32, steps: u64) -> (v: Vec<(i64, i64)>)
    requires
        steps <= u32::MAX as u64 + 1,
    ensures
        v@ == down_candidates(row as int, col as int, steps as int),
{
    let mut v: Vec<(i64, i64)> = Vec::new();
    let mut i: u64 = 0;
    while i < steps
        invariant
            i <= steps,
            steps <= u32::MAX as u64 + 1,
            v@.len() == i,
            forall|j: int|
                0 <= j < i ==> (#[trigger] v@[j]) == (((row as int + 1 + j) as i64, col as i64)),
        decreases steps - i,
    {
        v.push((row as i64 + 1 + i as i64, col as i64));
        i = i + 1;
    }
    proof {
        assert(v@ =~= down_candidates(row as int, col as int, steps as int));
    }
    v
}

/// Build [`diag_candidates`] as a vector.
fn build_diag_candidates(row: u32, col: u32, left_first: bool) -> (v: Vec<(i64, i64)>)
    ensures
        v@ == diag_candidates(row as int, col as int, left_first),
{
    let r = row as i64;
    let c = col as i64;
    let mut v: Vec<(i64, i64)> = Vec::new();
    if left_first {
        v.push((r + 1, c - 1));
        v.push((r + 1, c + 1));
    } else {
        v.push((r + 1, c + 1));
        v.push((r + 1, c - 1));
    }
    proof {
        assert(v@ =~= diag_candidates(row as int, col as int, left_first));
    }
    v
}

/// Build [`lateral_candidates`] as a vector.
fn build_lateral_candidates(row: u32, col: u32, left_first: bool) -> (v: Vec<(i64, i64)>)
    ensures
        v@ == lateral_candidates(row as int, col as int, left_first),
{
    let r = row as i64;
    let c = col as i64;
    let mut v: Vec<(i64, i64)> = Vec::new();
    if left_first {
        v.push((r, c - 1));
        v.push((r, c - 2));
        v.push((r, c - 3));
        v.push((r, c + 1));
        v.push((r, c + 2));
        v.push((r, c + 3));
    } else {
        v.push((r, c + 1));
        v.push((r, c + 2));
        v.push((r, c + 3));
        v.push((r, c - 1));
        v.push((r, c - 2));
        v.push((r, c - 3));
    }
    proof {
        assert(v@ =~= lateral_candidates(row as int, col as int, left_first));
    }
    v
}

impl GridView {
    /// The furthest legal straight-down destination of the sand cell at
    /// `(row, col)`, by the permissive (solid) scan.
    pub open spec fn sand_down_dest(self, row: int, col: int) -> Option<(int, int)> {
        self.scan_dest(
            down_candidates(row, col, sand_fall_steps(self.cell_at(row, col).energy)),
            true,
        )
    }

    /// The diagonal destination of the sand cell at `(row, col)`, by the
    /// permissive (solid) scan.
    pub open spec fn sand_diag_dest(self, row: int, col: int, left_first: bool) -> Option<
        (int, int),
    > {
        self.scan_dest(diag_candidates(row, col, left_first), true)
    }

    /// The furthest legal straight-down destination of the water cell at
    /// `(row, col)`, by the strict (liquid) scan.
    pub open spec fn water_down_dest(self, row: int, col: int) -> Option<(int, int)> {
        self.scan_dest(
            down_candidates(row, col, water_fall_steps(self.cell_at(row, col).energy)),
            false,
        )
    }

    /// The diagonal destination of the water cell at `(row, col)`, by the
    /// strict (liquid) scan.
    pub open spec fn water_diag_dest(self, row: int, col: int, left_first: bool) -> Option<
        (int, int),
    > {
        self.scan_dest(diag_candidates(row, col, left_first), false)
    }

    /// The lateral destination of the water cell at `(row, col)`, by the
    /// strict (liquid) scan.
    pub open spec fn water_lateral_dest(self, row: int, col: int, left_first: bool) -> Option<
        (int, int),
    > {
        self.scan_dest(lateral_candidates(row, col, left_first), false)
    }

    /// The buffer after the mover at `(row, col)` swaps with `dest`: the
    /// mover's material travels to `dest` carrying `new_energy` and a set
    /// update flag; the displaced cell arrives at the origin unchanged.
    pub open spec fn moved_cells(
        self,
        row: int,
        col: int,
        dest: (int, int),
        new_energy: u32,
    ) -> Seq<Cell> {
        let i = self.index_of(row, col);
        let j = self.index_of(dest.0, dest.1);
        let cell = self.cells[i];
        self.cells.update(i, self.cells[j]).update(
            j,
            Cell { id: cell.id, energy: new_energy, has_been_updated: true },
        )
    }

    /// The buffer after the mover at `(row, col)` settles: position and
    /// material kept, energy reset, flag set.
    pub open spec fn settled_cells(self, row: int, col: int) -> Seq<Cell> {
        let i = self.index_of(row, col);
        let cell = self.cells[i];
        self.cells.update(i, Cell { id: cell.id, energy: 0, has_been_updated: true })
    }

    /// The buffer after one sand step at `(row, col)`: straight fall (with
    /// an energy gain), else diagonal step (energy kept), else settle.
    pub open spec fn sand_step_cells(self, row: int, col: int, left_first: bool) -> Seq<Cell> {
        let cell = self.cell_at(row, col);
        match self.sand_down_dest(row, col) {
            Some(d) => self.moved_cells(row, col, d, bumped(cell.energy)),
            None => match self.sand_diag_dest(row, col, left_first) {
                Some(d) => self.moved_cells(row, col, d, cell.energy),
                None => self.settled_cells(row, col),
            },
        }
    }

    /// The buffer after one water step at `(row, col)`: straight fall (with
    /// an energy gain), else diagonal step (energy kept), else lateral
    /// spread (energy reset), else settle.
    pub open spec fn water_step_cells(
        self,
        row: int,
        col: int,
        diag_left_first: bool,
        lat_left_first: bool,
    ) -> Seq<Cell> {
        let cell = self.cell_at(row, col);
        match self.water_down_dest(row, col) {
            Some(d) => self.moved_cells(row, col, d, bumped(cell.energy)),
            None => match self.water_diag_dest(row, col, diag_left_first) {
                Some(d) => self.moved_cells(row, col, d, cell.energy),
                None => match self.water_lateral_dest(row, col, lat_left_first) {
                    Some(d) => self.moved_cells(row, col, d, 0),
                    None => self.settled_cells(row, col),
                },
            },
        }
    }

    /// The buffer after one rock step at `(row, col)`: only the update flag
    /// is set; a rock never changes position or energy.
    pub open spec fn rock_step_cells(self, row: int, col: int) -> Seq<Cell> {
        let i = self.index_of(row, col);
        let cell = self.cells[i];
        self.cells.update(
            i,
            Cell { id: cell.id, energy: cell.energy, has_been_updated: true },
        )
    }
}

/// One cell's dispatch within the sweep. A cell that has already acted this
/// tick is skipped; otherwise sand consumes one tie-break bit and water two
/// (diagonal order first, lateral order second), and the buffer steps by the
/// material's movement rule.
pub open spec fn spec_dispatch(g: GridView, b: BitSource, row: int, col: int) -> (
    GridView,
    BitSource,
) {
    let cell = g.cell_at(row, col);
    if cell.has_been_updated {
        (g, b)
    } else if cell.id == CellType::Sand {
        (
            GridView { cells: g.sand_step_cells(row, col, b.spec_peek()), ..g },
            b.spec_advanced(),
        )
    } else if cell.id == CellType::Water {
        (
            GridView {
                cells: g.water_step_cells(
                    row,
                    col,
                    b.spec_peek(),
                    b.spec_advanced().spec_peek(),
                ),
                ..g
            },
            b.spec_advanced().spec_advanced(),
        )
    } else if cell.id == CellType::Rock {
        (GridView { cells: g.rock_step_cells(row, col), ..g }, b)
    } else {
        (g, b)
    }
}

/// The state after the first `k` steps of one tick's sweep over `g` with the
/// tie-break queue `b`. The sweep visits flat indices in descending order —
/// rows bottom to top, columns right to left — so step `k` visits index
/// `width * height - k`.
pub open spec fn spec_sweep(g: GridView, b: BitSource, k: nat) -> (GridView, BitSource)
    decreases k,
{
    if k == 0 {
        (g, b)
    } else {
        let prev = spec_sweep(g, b, (k - 1) as nat);
        let idx = g.width * g.height - k;
        spec_dispatch(prev.0, prev.1, idx / g.width, idx % g.width)
    }
}

/// Every cell with its update flag cleared, everything else kept: the
/// end-of-tick reset that prepares the next sweep.
pub open spec fn clear_flags(s: Seq<Cell>) -> Seq<Cell> {
    s.map(|i: int, c: Cell| Cell { id: c.id, energy: c.energy, has_been_updated: false })
}

/// Swapping two elements of a sequence leaves its multiset of elements
/// unchanged.
proof fn lemma_swap_preserves_multiset<A>(s: Seq<A>, i: int, j: int)
    requires
        0 <= i < s.len(),
        0 <= j < s.len(),
    ensures
        s.update(i, s[j]).update(j, s[i]).to_multiset() == s.to_multiset(),
{
    broadcast use vstd::seq_lib::group_to_multiset_ensures;
    broadcast use vstd::multiset::group_multiset_axioms;

    if i == j {
        assert(s.update(i, s[j]).update(j, s[i]) =~= s);
    } else {
        let s1 = s.update(i, s[j]);
        let s2 = s1.update(j, s[i]);
        assert(s1[j] == s[j]);
        assert(s.contains(s[i]));
        assert(s1.contains(s1[j]));
        assert(s2.to_multiset() =~= s.to_multiset());
    }
}

impl Universe {
    /// Mark the rock at `(row, col)` updated. A rock never changes position
    /// or energy, and the buffer's materials are untouched.
    pub fn update_rock(&mut self, row: u32, col: u32)
        requires
            old(self).wf(),
            old(self)@.in_bounds(row as int, col as int),
        ensures
            final(self).wf(),
            final(self).width == old(self).width,
            final(self).height == old(self).height,
            final(self).rand_bits == old(self).rand_bits,
            final(self).cells@ == old(self)@.rock_step_cells(row as int, col as int),
            final(self)@.ids() == old(self)@.ids(),
    {
        let idx = self.get_index(row, col);
        let cell = self.cells[idx];
        self.cells.set(idx, Cell { id: cell.id, energy: cell.energy, has_been_updated: true });
        proof {
            assert(self@.ids() =~= old(self)@.ids());
        }
    }

    /// One sand step at `(row, col)`: probe `energy / 4 + 1` cells straight
    /// down with the permissive scan and swap with the furthest legal
    /// destination (gaining one energy); else take a diagonal step in the
    /// tie-break order (energy kept); else settle, resetting energy to zero.
    /// Movement swaps whole cells, so the grid's multiset of materials is
    /// invariant and rocks stay exactly where they were.
    pub fn update_sand(&mut self, row: u32, col: u32, left_first: bool)
        requires
            old(self).wf(),
            old(self)@.in_bounds(row as int, col as int),
            old(self)@.cell_at(row as int, col as int).id == CellType::Sand,
        ensures
            final(self).wf(),
            final(self).width == old(self).width,
            final(self).height == old(self).height,
            final(self).rand_bits == old(self).rand_bits,
            final(self).cells@ == old(self)@.sand_step_cells(row as int, col as int, left_first),
            final(self)@.ids().to_multiset() == old(self)@.ids().to_multiset(),
            forall|k: int|
                0 <= k < final(self).cells@.len() ==> ((#[trigger] final(self).cells@[k].id)
                    == CellType::Rock <==> old(self).cells@[k].id == CellType::Rock),
            (!old(self)@.legal_dest(row as int + 1, col as int, true) && !old(self)@.legal_dest(
                row as int + 1,
                col as int - 1,
                true,
            ) && !old(self)@.legal_dest(row as int + 1, col as int + 1, true))
                ==> final(self).cells@ == old(self)@.settled_cells(row as int, col as int),
    {
        let ghost g0 = self@;
        let idx = self.get_index(row, col);
        let cell = self.cells[idx];
        let steps: u32 = cell.energy / 4 + 1;
        let downs = build_down_candidates(row, col, steps as u64);
        let down_valid = self.find_valid_positions_for_solid(&downs);
        proof {
            g0.lemma_scan_len_le(downs@, true);
        }
        if down_valid.len() > 0 {
            let ghost n = down_valid@.len() as int;
            let d = down_valid[down_valid.len() - 1];
            proof {
                g0.lemma_scan_legal_at(downs@, true, n - 1);
                g0.lemma_scan_legal_at(downs@, true, 0);
                assert(downs@[n - 1].0 as int == row as int + n);
                g0.lemma_index_injective(row as int, col as int, d.0 as int, d.1 as int);
            }
            let j = self.get_index(d.0, d.1);
            let e2 = if cell.energy < u32::MAX {
                cell.energy + 1
            } else {
                cell.energy
            };
            self.cells.set(idx, Cell { id: cell.id, energy: e2, has_been_updated: true });
            self.switch_cells(idx, j);
            proof {
                let dest = (d.0 as int, d.1 as int);
                assert(g0.sand_down_dest(row as int, col as int) == Some(dest));
                assert(self.cells@ =~= g0.moved_cells(
                    row as int,
                    col as int,
                    dest,
                    bumped(cell.energy),
                ));
                self.lemma_swap_facts(g0, row as int, col as int, dest);
            }
        } else {
            let diags = build_diag_candidates(row, col, left_first);
            let diag_valid = self.find_valid_positions_for_solid(&diags);
            proof {
                g0.lemma_scan_len_le(diags@, true);
            }
            if diag_valid.len() > 0 {
                let ghost n = diag_valid@.len() as int;
                let d = diag_valid[diag_valid.len() - 1];
                proof {
                    g0.lemma_scan_legal_at(diags@, true, n - 1);
                    g0.lemma_scan_legal_at(diags@, true, 0);
                    assert(diags@[n - 1].0 as int == row as int + 1);
                    g0.lemma_index_injective(row as int, col as int, d.0 as int, d.1 as int);
                }
                let j = self.get_index(d.0, d.1);
                self.cells.set(
                    idx,
                    Cell { id: cell.id, energy: cell.energy, has_been_updated: true },
                );
                self.switch_cells(idx, j);
                proof {
                    let dest = (d.0 as int, d.1 as int);
                    assert(g0.sand_diag_dest(row as int, col as int, left_first) == Some(dest));
                    assert(self.cells@ =~= g0.moved_cells(row as int, col as int, dest, cell.energy));
                    self.lemma_swap_facts(g0, row as int, col as int, dest);
                }
            } else {
                self.cells.set(idx, Cell { id: cell.id, energy: 0, has_been_updated: true });
                proof {
                    assert(self.cells@ =~= g0.settled_cells(row as int, col as int));
                    assert(self@.ids() =~= g0.ids());
                }
            }
        }
    }

    /// One water step at `(row, col)`: probe `energy + 1` cells straight
    /// down with the strict scan and swap with the furthest legal
    /// destination (gaining one energy); else take a diagonal step in the
    /// tie-break order (energy kept); else spread laterally up to
    /// [`SPREAD_FACTOR`] cells, whole sides ordered by the second tie-break
    /// choice (energy reset); else settle, resetting energy to zero.
    /// Movement swaps whole cells, so the grid's multiset of materials is
    /// invariant and rocks stay exactly where they were.
    pub fn update_water(&mut self, row: u32, col: u32, diag_left_first: bool, lat_left_first: bool)
        requires
            old(self).wf(),
            old(self)@.in_bounds(row as int, col as int),
            old(self)@.cell_at(row as int, col as int).id == CellType::Water,
        ensures
            final(self).wf(),
            final(self).width == old(self).width,
            final(self).height == old(self).height,
            final(self).rand_bits == old(self).rand_bits,
            final(self).cells@ == old(self)@.water_step_cells(
                row as int,
                col as int,
                diag_left_first,
                lat_left_first,
            ),
            final(self)@.ids().to_multiset() == old(self)@.ids().to_multiset(),
            forall|k: int|
                0 <= k < final(self).cells@.len() ==> ((#[trigger] final(self).cells@[k].id)
                    == CellType::Rock <==> old(self).cells@[k].id == CellType::Rock),
    {
        let ghost g0 = self@;
        let idx = self.get_index(row, col);
        let cell = self.cells[idx];
        let steps: u64 = cell.energy as u64 + 1;
        let downs = build_down_candidates(row, col, steps);
        let down_valid = self.find_valid_positions(&downs);
        proof {
            g0.lemma_scan_len_le(downs@, false);
        }
        if down_valid.len() > 0 {
            let ghost n = down_valid@.len() as int;
            let d = down_valid[down_valid.len() - 1];
            proof {
                g0.lemma_scan_legal_at(downs@, false, n - 1);
                assert(downs@[n - 1].0 as int == row as int + n);
                g0.lemma_index_injective(row as int, col as int, d.0 as int, d.1 as int);
            }
            let j = self.get_index(d.0, d.1);
            let e2 = if cell.energy < u32::MAX {
                cell.energy + 1
            } else {
                cell.energy
            };
            self.cells.set(idx, Cell { id: cell.id, energy: e2, has_been_updated: true });
            self.switch_cells(idx, j);
            proof {
                let dest = (d.0 as int, d.1 as int);
                assert(g0.water_down_dest(row as int, col as int) == Some(dest));
                assert(self.cells@ =~= g0.moved_cells(
                    row as int,
                    col as int,
                    dest,
                    bumped(cell.energy),
                ));
                self.lemma_swap_facts(g0, row as int, col as int, dest);
            }
        } else {
            let diags = build_diag_candidates(row, col, diag_left_first);
            let diag_valid = self.find_valid_positions(&diags);
            proof {
                g0.lemma_scan_len_le(diags@, false);
            }
            if diag_valid.len() > 0 {
                let ghost n = diag_valid@.len() as int;
                let d = diag_valid[diag_valid.len() - 1];
                proof {
                    g0.lemma_scan_legal_at(diags@, false, n - 1);
                    assert(diags@[n - 1].0 as int == row as int + 1);
                    g0.lemma_index_injective(row as int, col as int, d.0 as int, d.1 as int);
                }
                let j = self.get_index(d.0, d.1);
                self.cells.set(
                    idx,
                    Cell { id: cell.id, energy: cell.energy, has_been_updated: true },
                );
                self.switch_cells(idx, j);
                proof {
                    let dest = (d.0 as int, d.1 as int);
                    assert(g0.water_diag_dest(row as int, col as int, diag_left_first) == Some(
                        dest,
                    ));
                    assert(self.cells@ =~= g0.moved_cells(row as int, col as int, dest, cell.energy));
                    self.lemma_swap_facts(g0, row as int, col as int, dest);
                }
            } else {
                let lats = build_lateral_candidates(row, col, lat_left_first);
                let lat_valid = self.find_valid_positions(&lats);
                proof {
                    g0.lemma_scan_len_le(lats@, false);
                }
                if lat_valid.len() > 0 {
                    let ghost n = lat_valid@.len() as int;
                    let d = lat_valid[lat_valid.len() - 1];
                    proof {
                        g0.lemma_scan_legal_at(lats@, false, n - 1);
                        assert(lats@[n - 1].0 as int == row as int);
                        assert(lats@[n - 1].1 as int != col as int);
                        g0.lemma_index_injective(row as int, col as int, d.0 as int, d.1 as int);
                    }
                    let j = self.get_index(d.0, d.1);
                    self.cells.set(
                        idx,
                        Cell { id: cell.id, energy: 0, has_been_updated: true },
                    );
                    self.switch_cells(idx, j);
                    proof {
                        let dest = (d.0 as int, d.1 as int);
                        assert(g0.water_lateral_dest(row as int, col as int, lat_left_first)
                            == Some(dest));
                        assert(self.cells@ =~= g0.moved_cells(row as int, col as int, dest, 0));
                        self.lemma_swap_facts(g0, row as int, col as int, dest);
                    }
                } else {
                    self.cells.set(idx, Cell { id: cell.id, energy: 0, has_been_updated: true });
                    proof {
                        assert(self.cells@ =~= g0.settled_cells(row as int, col as int));
                        assert(self@.ids() =~= g0.ids());
                    }
                }
            }
        }
    }

    /// Advance the simulation one step: sweep every coordinate — rows
    /// bottom to top, columns right to left — dispatching each not yet
    /// updated cell by its material, then clear every update flag.
    ///
    /// The sweep's exact outcome is [`spec_sweep`]; on top of it this
    /// contract states the tick's invariants: the multiset of materials is
    /// conserved (movement only ever swaps cells), rocks never change
    /// position, an all-dead grid keeps every cell's material and energy,
    /// and every flag is clear afterwards.
    #[verifier::loop_isolation(false)]
    pub fn tick(&mut self)
        requires
            old(self).wf(),
        ensures
            final(self).wf(),
            final(self).width == old(self).width,
            final(self).height == old(self).height,
            final(self).rand_bits.bits == old(self).rand_bits.bits,
            final(self).cells@ == clear_flags(
                spec_sweep(
                    old(self)@,
                    old(self).rand_bits,
                    (old(self)@.width * old(self)@.height) as nat,
                ).0.cells,
            ),
            final(self).rand_bits == spec_sweep(
                old(self)@,
                old(self).rand_bits,
                (old(self)@.width * old(self)@.height) as nat,
            ).1,
            final(self)@.ids().to_multiset() == old(self)@.ids().to_multiset(),
            forall|k: int|
                0 <= k < final(self).cells@.len() ==> ((#[trigger] final(self).cells@[k].id)
                    == CellType::Rock <==> old(self).cells@[k].id == CellType::Rock),
            forall|k: int|
                0 <= k < final(self).cells@.len()
                    ==> !(#[trigger] final(self).cells@[k]).has_been_updated,
            old(self)@.all_dead() ==> forall|k: int|
                0 <= k < final(self).cells@.len() ==> (#[trigger] final(self).cells@[k]).id
                    == old(self).cells@[k].id && final(self).cells@[k].energy
                    == old(self).cells@[k].energy,
    {
        let ghost g0 = self@;
        let ghost b0 = self.rand_bits;
        let ghost n = g0.width * g0.height;
        let mut row: u32 = self.height;
        proof {
            assert(n - row as int * g0.width == 0) by (nonlinear_arith)
                requires
                    n == g0.width * g0.height,
                    row as int == g0.height,
            ;
        }
        while row > 0
            invariant
                self.wf(),
                self.width == old(self).width,
                self.height == old(self).height,
                self@.width == g0.width,
                self@.height == g0.height,
                row <= self.height,
                spec_sweep(g0, b0, (n - row as int * g0.width) as nat) == (self@, self.rand_bits),
                n - row as int * g0.width >= 0,
                self.rand_bits.bits == b0.bits,
                self@.ids().to_multiset() == g0.ids().to_multiset(),
                forall|k: int|
                    0 <= k < self.cells@.len() ==> ((#[trigger] self.cells@[k].id)
                        == CellType::Rock <==> g0.cells[k].id == CellType::Rock),
                g0.all_dead() ==> self.cells@ == g0.cells,
            decreases row,
        {
            proof {
                assert((row as int - 1) * g0.width + g0.width == row as int * g0.width)
                    by (nonlinear_arith);
            }
            row = row - 1;
            let mut col: u32 = self.width;
            while col > 0
                invariant
                    self.wf(),
                    self.width == old(self).width,
                    self.height == old(self).height,
                    self@.width == g0.width,
                    self@.height == g0.height,
                    row < self.height,
                    col <= self.width,
                    spec_sweep(g0, b0, (n - (row as int * g0.width + col as int)) as nat) == (
                        self@,
                        self.rand_bits,
                    ),
                    n - (row as int * g0.width + col as int) >= 0,
                    self.rand_bits.bits == b0.bits,
                    self@.ids().to_multiset() == g0.ids().to_multiset(),
                    forall|k: int|
                        0 <= k < self.cells@.len() ==> ((#[trigger] self.cells@[k].id)
                            == CellType::Rock <==> g0.cells[k].id == CellType::Rock),
                    g0.all_dead() ==> self.cells@ == g0.cells,
                decreases col,
            {
                col = col - 1;
                let ghost pre = self@;
                let ghost pre_bits = self.rand_bits;
                let ghost flat = row as int * g0.width + col as int;
                proof {
                    let r = row as int;
                    let c = col as int;
                    assert(flat < n && n - (flat + 1) >= 0) by (nonlinear_arith)
                        requires
                            0 <= r < g0.height,
                            0 <= c < g0.width,
                            n == g0.width * g0.height,
                            flat == r * g0.width + c,
                    ;
                    vstd::arithmetic::div_mod::lemma_fundamental_div_mod_converse(
                        flat,
                        g0.width,
                        row as int,
                        col as int,
                    );
                }
                let idx = self.get_index(row, col);
                let cell = self.cells[idx];
                if !cell.has_been_updated {
                    match cell.id {
                        CellType::Dead => {},
                        CellType::Sand => {
                            let bit = self.next_random_bit();
                            self.update_sand(row, col, bit);
                        },
                        CellType::Water => {
                            let b1 = self.next_random_bit();
                            let b2 = self.next_random_bit();
                            self.update_water(row, col, b1, b2);
                        },
                        CellType::Rock => {
                            self.update_rock(row, col);
                        },
                    }
                }
                proof {
                    assert(spec_dispatch(pre, pre_bits, row as int, col as int) == (
                        self@,
                        self.rand_bits,
                    ));
                    assert(spec_sweep(g0, b0, (n - flat) as nat) == (self@, self.rand_bits));
                }
            }
        }
        assert(spec_sweep(g0, b0, n as nat) == (self@, self.rand_bits));
        let ghost mid = self.cells@;
        let ghost bmid = self.rand_bits;
        let mut i: usize = 0;
        while i < self.cells.len()
            invariant
                self.cells@.len() == mid.len(),
                i <= mid.len(),
                self.width == old(self).width,
                self.height == old(self).height,
                self.rand_bits == bmid,
                forall|j: int|
                    0 <= j < i ==> (#[trigger] self.cells@[j]) == (Cell {
                        id: mid[j].id,
                        energy: mid[j].energy,
                        has_been_updated: false,
                    }),
                forall|j: int| i <= j < mid.len() ==> (#[trigger] self.cells@[j]) == mid[j],
            decreases mid.len() - i,
        {
            let c = self.cells[i];
            self.cells.set(i, Cell { id: c.id, energy: c.energy, has_been_updated: false });
            i = i + 1;
        }
        proof {
            assert(self.cells@ =~= clear_flags(mid));
            assert(self@.ids() =~= GridView { cells: mid, ..self@ }.ids());
            assert(self@.ids().to_multiset() == g0.ids().to_multiset());
        }
    }

    /// After a swap of the mover at `(row, col)` with a legal destination,
    /// the multiset of materials is unchanged and no position gains or
    /// loses a rock. (The mover itself must not be a rock.)
    proof fn lemma_swap_facts(self, g0: GridView, row: int, col: int, dest: (int, int))
        requires
            g0.wf(),
            g0.in_bounds(row, col),
            g0.cell_at(row, col).id != CellType::Rock,
            g0.in_bounds(dest.0, dest.1),
            g0.cell_at(dest.0, dest.1).id != CellType::Rock,
            !(dest.0 == row && dest.1 == col),
            exists|e: u32|
                self.cells@ == g0.moved_cells(row, col, dest, e),
        ensures
            self@.ids().to_multiset() == g0.ids().to_multiset(),
            forall|k: int|
                0 <= k < self.cells@.len() ==> ((#[trigger] self.cells@[k].id) == CellType::Rock
                    <==> g0.cells[k].id == CellType::Rock),
    {
        let i = g0.index_of(row, col);
        let j = g0.index_of(dest.0, dest.1);
        g0.lemma_index_in_range(row, col);
        g0.lemma_index_in_range(dest.0, dest.1);
        g0.lemma_index_injective(row, col, dest.0, dest.1);
        let ids0 = g0.ids();
        assert(self@.ids() =~= ids0.update(i, ids0[j]).update(j, ids0[i]));
        lemma_swap_preserves_multiset(ids0, i, j);
    }
}

} // verus!
