//! The candidate scanner: given an ordered list of target coordinates and the
//! mover's phase, yield the longest contiguous prefix of legal destinations,
//! stopping at the first coordinate that is out of bounds or not displaceable.
//! A mover falls through a clear run; it never jumps over an obstruction.
//!
//! Coordinates are carried as signed pairs so that a probe one step past an
//! edge (row or column `-1`) is an explicit out-of-bounds value rather than a
//! wrapped-around unsigned one.

use vstd::prelude::*;

use crate::cell::{CellType, Phase, spec_phase};
use crate::universe::{GridView, Universe};

verus! {

impl GridView {
    /// May a mover of the given kind displace into `(row, col)`? Any mover
    /// may enter a dead cell; a solid mover may also displace a liquid
    /// (sand sinks through water). Out-of-bounds coordinates are never legal.
    pub open spec fn legal_dest(self, row: int, col: int, solid: bool) -> bool {
        &&& self.in_bounds(row, col)
        &&& (self.cell_at(row, col).id == CellType::Dead || (solid && spec_phase(
            self.cell_at(row, col).id,
        ) == Phase::Liquid))
    }

    /// Length of the longest prefix of `ps` whose coordinates are all legal
    /// destinations: the scan stops at the first failure.
    pub open spec fn scan_len(self, ps: Seq<(i64, i64)>, solid: bool) -> nat
        decreases ps.len(),
    {
        if ps.len() == 0 {
            0
        } else if self.legal_dest(ps[0].0 as int, ps[0].1 as int, solid) {
            (1 + self.scan_len(ps.drop_first(), solid)) as nat
        } else {
            0
        }
    }

    /// The furthest legal destination along `ps`: the last coordinate of the
    /// legal prefix, or nothing when the very first candidate already fails.
    pub open spec fn scan_dest(self, ps: Seq<(i64, i64)>, solid: bool) -> Option<(int, int)> {
        let n = self.scan_len(ps, solid) as int;
        if n == 0 {
            None
        } else {
            Some((ps[n - 1].0 as int, ps[n - 1].1 as int))
        }
    }

    /// The scan never returns more candidates than it was given.
    pub proof fn lemma_scan_len_le(self, ps: Seq<(i64, i64)>, solid: bool)
        ensures
            self.scan_len(ps, solid) <= ps.len(),
        decreases ps.len(),
    {
        if ps.len() > 0 && self.legal_dest(ps[0].0 as int, ps[0].1 as int, solid) {
            self.lemma_scan_len_le(ps.drop_first(), solid);
        }
    }

    /// Every coordinate inside the scanned prefix is a legal destination.
    pub proof fn lemma_scan_legal_at(self, ps: Seq<(i64, i64)>, solid: bool, i: int)
        requires
            0 <= i < self.scan_len(ps, solid),
        ensures
            self.legal_dest(ps[i].0 as int, ps[i].1 as int, solid),
        decreases ps.len(),
    {
        self.lemma_scan_len_le(ps, solid);
        if i > 0 {
            self.lemma_scan_legal_at(ps.drop_first(), solid, i - 1);
        }
    }

    /// The scan length is pinned by any witness `k` such that everything
    /// before `k` is legal and `k` itself (if it exists) is not.
    pub proof fn lemma_scan_len_characterize(self, ps: Seq<(i64, i64)>, solid: bool, k: int)
        requires
            0 <= k <= ps.len(),
            forall|i: int|
                0 <= i < k ==> self.legal_dest(
                    (#[trigger] ps[i]).0 as int,
                    ps[i].1 as int,
                    solid,
                ),
            k == ps.len() || !self.legal_dest(ps[k].0 as int, ps[k].1 as int, solid),
        ensures
            self.scan_len(ps, solid) == k,
        decreases ps.len(),
    {
        if k == 0 {
        } else {
            assert(self.legal_dest(ps[0].0 as int, ps[0].1 as int, solid));
            assert(forall|i: int|
                0 <= i < k - 1 ==> (#[trigger] ps.drop_first()[i]) == ps[i + 1]);
            self.lemma_scan_len_characterize(ps.drop_first(), solid, k - 1);
        }
    }
}

impl Universe {
    /// Is `(row, col)` an in-bounds, dead cell? The strict check a liquid
    /// mover uses. Returns the coordinate, now known unsigned, on success.
    pub fn is_empty_and_inbound(&self, row: i64, col: i64) -> (found: Option<(u32, u32)>)
        requires
            self.wf(),
        ensures
            match found {
                Some(p) => p.0 as int == row as int && p.1 as int == col as int
                    && self@.legal_dest(row as int, col as int, false),
                None => !self@.legal_dest(row as int, col as int, false),
            },
    {
        if 0 <= row && row < self.height as i64 && 0 <= col && col < self.width as i64 {
            let idx = self.get_index(row as u32, col as u32);
            if self.cells[idx].id == CellType::Dead {
                return Some((row as u32, col as u32));
            }
        }
        None
    }

    /// Is `(row, col)` in bounds and of the given phase? Returns the
    /// coordinate, now known unsigned, on success.
    pub fn is_phase(&self, row: i64, col: i64, ele: Phase) -> (found: Option<(u32, u32)>)
        requires
            self.wf(),
        ensures
            match found {
                Some(p) => p.0 as int == row as int && p.1 as int == col as int
                    && self@.in_bounds(row as int, col as int)
                    && spec_phase(self@.cell_at(row as int, col as int).id) == ele,
                None => !(self@.in_bounds(row as int, col as int)
                    && spec_phase(self@.cell_at(row as int, col as int).id) == ele),
            },
    {
        if 0 <= row && row < self.height as i64 && 0 <= col && col < self.width as i64 {
            let idx = self.get_index(row as u32, col as u32);
            if self.cells[idx].phase() == ele {
                return Some((row as u32, col as u32));
            }
        }
        None
    }

    /// The strict scan, for liquid movers: the longest prefix of `positions`
    /// that is in bounds and dead throughout.
    pub fn find_valid_positions(&self, positions: &Vec<(i64, i64)>) -> (valid: Vec<(u32, u32)>)
        requires
            self.wf(),
        ensures
            valid@.len() == self@.scan_len(positions@, false),
            forall|i: int|
                0 <= i < valid@.len() ==> (#[trigger] valid@[i]).0 as int == positions@[i].0 as int
                    && valid@[i].1 as int == positions@[i].1 as int,
    {
        let mut valid: Vec<(u32, u32)> = Vec::new();
        let mut i: usize = 0;
        let mut open_path = true;
        while open_path && i < positions.len()
            invariant
                self.wf(),
                i <= positions@.len(),
                valid@.len() == i,
                forall|j: int|
                    0 <= j < i ==> self@.legal_dest(
                        (#[trigger] positions@[j]).0 as int,
                        positions@[j].1 as int,
                        false,
                    ),
                forall|j: int|
                    0 <= j < i ==> (#[trigger] valid@[j]).0 as int == positions@[j].0 as int
                        && valid@[j].1 as int == positions@[j].1 as int,
                !open_path ==> i < positions@.len() && !self@.legal_dest(
                    positions@[i as int].0 as int,
                    positions@[i as int].1 as int,
                    false,
                ),
            decreases positions@.len() - i, (if open_path { 1int } else { 0int }),
        {
            match self.is_empty_and_inbound(positions[i].0, positions[i].1) {
                Some(q) => {
                    valid.push(q);
                    i = i + 1;
                },
                None => {
                    open_path = false;
                },
            }
        }
        proof {
            self@.lemma_scan_len_characterize(positions@, false, i as int);
        }
        valid
    }

    /// The permissive scan, for solid movers: the longest prefix of
    /// `positions` that is in bounds and dead or liquid throughout (a solid
    /// sinks through liquid).
    pub fn find_valid_positions_for_solid(&self, positions: &Vec<(i64, i64)>) -> (valid: Vec<
        (u32, u32),
    >)
        requires
            self.wf(),
        ensures
            valid@.len() == self@.scan_len(positions@, true),
            forall|i: int|
                0 <= i < valid@.len() ==> (#[trigger] valid@[i]).0 as int == positions@[i].0 as int
                    && valid@[i].1 as int == positions@[i].1 as int,
    {
        let mut valid: Vec<(u32, u32)> = Vec::new();
        let mut i: usize = 0;
        let mut open_path = true;
        while open_path && i < positions.len()
            invariant
                self.wf(),
                i <= positions@.len(),
                valid@.len() == i,
                forall|j: int|
                    0 <= j < i ==> self@.legal_dest(
                        (#[trigger] positions@[j]).0 as int,
                        positions@[j].1 as int,
                        true,
                    ),
                forall|j: int|
                    0 <= j < i ==> (#[trigger] valid@[j]).0 as int == positions@[j].0 as int
                        && valid@[j].1 as int == positions@[j].1 as int,
                !open_path ==> i < positions@.len() && !self@.legal_dest(
                    positions@[i as int].0 as int,
                    positions@[i as int].1 as int,
                    true,
                ),
            decreases positions@.len() - i, (if open_path { 1int } else { 0int }),
        {
            let p = positions[i];
            let hit = match self.is_empty_and_inbound(p.0, p.1) {
                Some(q) => Some(q),
                None => self.is_phase(p.0, p.1, Phase::Liquid),
            };
            match hit {
                Some(q) => {
                    valid.push(q);
                    i = i + 1;
                },
                None => {
                    open_path = false;
                },
            }
        }
        proof {
            self@.lemma_scan_len_characterize(positions@, true, i as int);
        }
        valid
    }
}

} // verus!
