//! Laws of the movement rules, stated over the grid model and proved once
//! and for all: how far each material can travel in a single tick.

use vstd::prelude::*;

use crate::cell::CellType;
use crate::motion::{
    SPREAD_FACTOR, diag_candidates, down_candidates, lateral_candidates, sand_fall_steps,
    water_fall_steps,
};
use crate::universe::GridView;

verus! {

/// On a clear column, a liquid falls its full energy plus one in a single
/// tick, while a solid with the same accumulated energy falls only the
/// damped `energy / 4 + 1`: the liquid's fall distance is never smaller.
pub proof fn lemma_liquid_fall_dominates(g: GridView, row: int, col: int)
    requires
        g.wf(),
        g.in_bounds(row, col),
        forall|k: int|
            1 <= k <= water_fall_steps(g.cell_at(row, col).energy) ==> g.in_bounds(row + k, col)
                && (#[trigger] g.cell_at(row + k, col)).id == CellType::Dead,
    ensures
        g.water_down_dest(row, col) == Some(
            (row + water_fall_steps(g.cell_at(row, col).energy), col),
        ),
        g.sand_down_dest(row, col) == Some(
            (row + sand_fall_steps(g.cell_at(row, col).energy), col),
        ),
        sand_fall_steps(g.cell_at(row, col).energy) <= water_fall_steps(
            g.cell_at(row, col).energy,
        ),
{
    g.lemma_dims_bounded(row, col);
    let e = g.cell_at(row, col).energy;
    let wsteps = water_fall_steps(e);
    let ssteps = sand_fall_steps(e);
    let wps = down_candidates(row, col, wsteps);
    let sps = down_candidates(row, col, ssteps);
    assert forall|i: int| 0 <= i < wps.len() implies g.legal_dest(
        (#[trigger] wps[i]).0 as int,
        wps[i].1 as int,
        false,
    ) by {
        assert(g.cell_at(row + (i + 1), col).id == CellType::Dead);
        assert(wps[i].0 as int == row + 1 + i && wps[i].1 as int == col);
    }
    g.lemma_scan_len_characterize(wps, false, wsteps);
    assert(wps[wsteps - 1].0 as int == row + wsteps);
    assert forall|i: int| 0 <= i < sps.len() implies g.legal_dest(
        (#[trigger] sps[i]).0 as int,
        sps[i].1 as int,
        true,
    ) by {
        assert(g.cell_at(row + (i + 1), col).id == CellType::Dead);
        assert(sps[i].0 as int == row + 1 + i && sps[i].1 as int == col);
    }
    g.lemma_scan_len_characterize(sps, true, ssteps);
    assert(sps[ssteps - 1].0 as int == row + ssteps);
}

/// Wherever a water cell can go in one tick: a straight fall stays in its
/// column and descends at most `energy + 1` rows; a diagonal step descends
/// exactly one row to an adjacent column; a lateral spread stays in its row
/// and moves at most [`SPREAD_FACTOR`] columns. Every destination is in
/// bounds — the spread never leaves the grid — and is a dead cell.
pub proof fn lemma_water_reach(
    g: GridView,
    row: int,
    col: int,
    diag_left_first: bool,
    lat_left_first: bool,
)
    requires
        g.wf(),
        g.in_bounds(row, col),
    ensures
        match g.water_down_dest(row, col) {
            Some(d) => d.1 == col && row < d.0 <= row + water_fall_steps(
                g.cell_at(row, col).energy,
            ) && g.in_bounds(d.0, d.1) && g.cell_at(d.0, d.1).id == CellType::Dead,
            None => true,
        },
        match g.water_diag_dest(row, col, diag_left_first) {
            Some(d) => d.0 == row + 1 && (d.1 == col - 1 || d.1 == col + 1) && g.in_bounds(
                d.0,
                d.1,
            ) && g.cell_at(d.0, d.1).id == CellType::Dead,
            None => true,
        },
        match g.water_lateral_dest(row, col, lat_left_first) {
            Some(d) => d.0 == row && d.1 != col && col - SPREAD_FACTOR <= d.1 <= col
                + SPREAD_FACTOR && g.in_bounds(d.0, d.1) && g.cell_at(d.0, d.1).id
                == CellType::Dead,
            None => true,
        },
{
    g.lemma_dims_bounded(row, col);
    let e = g.cell_at(row, col).energy;
    let dps = down_candidates(row, col, water_fall_steps(e));
    let n_down = g.scan_len(dps, false) as int;
    g.lemma_scan_len_le(dps, false);
    if n_down > 0 {
        g.lemma_scan_legal_at(dps, false, n_down - 1);
        assert(dps[n_down - 1].0 as int == row + n_down && dps[n_down - 1].1 as int == col);
    }
    let gps = diag_candidates(row, col, diag_left_first);
    let n_diag = g.scan_len(gps, false) as int;
    g.lemma_scan_len_le(gps, false);
    if n_diag > 0 {
        g.lemma_scan_legal_at(gps, false, n_diag - 1);
        assert(gps[n_diag - 1].0 as int == row + 1);
        assert(gps[n_diag - 1].1 as int == col - 1 || gps[n_diag - 1].1 as int == col + 1);
    }
    let lps = lateral_candidates(row, col, lat_left_first);
    let n_lat = g.scan_len(lps, false) as int;
    g.lemma_scan_len_le(lps, false);
    if n_lat > 0 {
        g.lemma_scan_legal_at(lps, false, n_lat - 1);
        assert(lps[n_lat - 1].0 as int == row);
        assert(lps[n_lat - 1].1 as int != col && col - SPREAD_FACTOR <= lps[n_lat - 1].1 as int
            <= col + SPREAD_FACTOR);
    }
}

} // verus!
