use falling_sand::cell::CellType;
use falling_sand::universe::Universe;

fn flat(width: u32, row: u32, col: u32) -> usize {
    (row * width + col) as usize
}

#[test]
fn new_universe_is_all_dead() {
    let u = Universe::new();
    assert_eq!(u.width(), 64);
    assert_eq!(u.height(), 64);
    let codes = u.cells();
    assert_eq!(codes.len(), 64 * 64);
    assert!(codes.iter().all(|&c| c == 0));
    for cell in u.get_cells() {
        assert_eq!(cell.id, CellType::Dead);
        assert_eq!(cell.energy, 0);
        assert!(!cell.has_been_updated);
    }
}

#[test]
fn dead_grid_is_stable_over_many_ticks() {
    let mut u = Universe::new();
    u.set_width(3);
    u.set_height(3);
    for _ in 0..5 {
        u.tick();
        for cell in u.get_cells() {
            assert_eq!(cell.id, CellType::Dead);
            assert_eq!(cell.energy, 0);
            assert!(!cell.has_been_updated);
        }
    }
}

#[test]
fn rock_never_moves() {
    let mut u = Universe::new();
    u.set_width(3);
    u.set_height(4);
    u.set_cell(1, 1, CellType::Rock);
    u.set_cell(0, 1, CellType::Sand);
    u.set_cell(0, 0, CellType::Water);
    for _ in 0..6 {
        u.tick();
        assert_eq!(u.get_cells()[flat(3, 1, 1)].id, CellType::Rock);
        // no other rock ever appears
        let rocks = u.cells().iter().filter(|&&c| c == 3).count();
        assert_eq!(rocks, 1);
    }
}

#[test]
fn sand_free_fall_gains_energy_with_damping() {
    // A 5-cell-tall single column: sand descends one cell per tick (its
    // damped probe depth stays energy / 4 + 1 = 1 while energy < 4) and
    // gains one energy per successful fall.
    let mut u = Universe::new();
    u.set_width(1);
    u.set_height(5);
    u.set_cell(0, 0, CellType::Sand);
    u.tick();
    assert_eq!(u.get_cells()[0].id, CellType::Dead);
    assert_eq!(u.get_cells()[1].id, CellType::Sand);
    assert_eq!(u.get_cells()[1].energy, 1);
    u.tick();
    assert_eq!(u.get_cells()[2].id, CellType::Sand);
    assert_eq!(u.get_cells()[2].energy, 2);
    u.tick();
    assert_eq!(u.get_cells()[3].id, CellType::Sand);
    assert_eq!(u.get_cells()[3].energy, 3);
    u.tick();
    assert_eq!(u.get_cells()[4].id, CellType::Sand);
    assert_eq!(u.get_cells()[4].energy, 4);
    // On the floor: no downward or diagonal destination, so it settles and
    // the accumulated energy resets.
    u.tick();
    assert_eq!(u.get_cells()[4].id, CellType::Sand);
    assert_eq!(u.get_cells()[4].energy, 0);
}

#[test]
fn water_falls_its_full_energy_each_tick() {
    // A tall clear column: water's per-tick fall distance is energy + 1,
    // undamped, so positions advance 1, 2, 3, 4 cells on successive ticks.
    let mut u = Universe::new();
    u.set_width(1);
    u.set_height(12);
    u.set_cell(0, 0, CellType::Water);
    u.tick();
    assert_eq!(u.get_cells()[1].id, CellType::Water);
    assert_eq!(u.get_cells()[1].energy, 1);
    u.tick();
    assert_eq!(u.get_cells()[3].id, CellType::Water);
    assert_eq!(u.get_cells()[3].energy, 2);
    u.tick();
    assert_eq!(u.get_cells()[6].id, CellType::Water);
    assert_eq!(u.get_cells()[6].energy, 3);
    u.tick();
    assert_eq!(u.get_cells()[10].id, CellType::Water);
    assert_eq!(u.get_cells()[10].energy, 4);
    // Only one clear cell remains below: the probe run stops at the floor.
    u.tick();
    assert_eq!(u.get_cells()[11].id, CellType::Water);
    assert_eq!(u.get_cells()[11].energy, 5);
    u.tick();
    assert_eq!(u.get_cells()[11].id, CellType::Water);
    assert_eq!(u.get_cells()[11].energy, 0);
}

#[test]
fn boxed_in_sand_settles_and_resets_energy() {
    // Sand falls once (gaining energy 1), then finds all three downward
    // neighbours blocked by rock: it settles in place and energy resets.
    let mut u = Universe::new();
    u.set_width(3);
    u.set_height(3);
    u.set_cell(0, 1, CellType::Sand);
    u.set_cell(2, 0, CellType::Rock);
    u.set_cell(2, 1, CellType::Rock);
    u.set_cell(2, 2, CellType::Rock);
    u.tick();
    assert_eq!(u.get_cells()[flat(3, 1, 1)].id, CellType::Sand);
    assert_eq!(u.get_cells()[flat(3, 1, 1)].energy, 1);
    u.tick();
    assert_eq!(u.get_cells()[flat(3, 1, 1)].id, CellType::Sand);
    assert_eq!(u.get_cells()[flat(3, 1, 1)].energy, 0);
}

#[test]
fn water_spreads_at_most_three_cells_laterally() {
    // Water blocked below and diagonally spreads sideways. With both whole
    // sides clear the scanned run covers all six candidates and the move
    // lands on the run's last cell, never more than SPREAD_FACTOR = 3
    // columns away.
    let mut u = Universe::new();
    u.set_width(9);
    u.set_height(2);
    for c in 0..9 {
        u.set_cell(1, c, CellType::Rock);
    }
    u.set_cell(0, 4, CellType::Water);
    u.set_random_bits(vec![true, true]);
    u.tick();
    let cells = u.get_cells();
    let water_cols: Vec<u32> = (0..9).filter(|&c| cells[flat(9, 0, c)].id == CellType::Water).collect();
    assert_eq!(water_cols.len(), 1);
    let dest = water_cols[0];
    // left-first order, everything clear: the run is the three left cells
    // then the nearest right cell; the furthest of that run is column 7.
    assert_eq!(dest, 7);
    assert!(dest.abs_diff(4) <= 3);
    assert_eq!(cells[flat(9, 0, dest)].energy, 0);
}

#[test]
fn water_lateral_spread_respects_grid_edge() {
    // Water one cell from the left edge, blocked below: the left run stops
    // at the edge (column -1 is out of bounds), so the move goes one cell
    // left, not beyond the grid.
    let mut u = Universe::new();
    u.set_width(9);
    u.set_height(2);
    for c in 0..9 {
        u.set_cell(1, c, CellType::Rock);
    }
    u.set_cell(0, 1, CellType::Water);
    u.set_random_bits(vec![true, true]);
    u.tick();
    let cells = u.get_cells();
    assert_eq!(cells[flat(9, 0, 0)].id, CellType::Water);
    assert_eq!(cells[flat(9, 0, 0)].energy, 0);
    assert_eq!(cells[flat(9, 0, 1)].id, CellType::Dead);
}

#[test]
fn resizing_resets_every_cell_to_dead() {
    let mut u = Universe::new();
    u.set_cell(0, 0, CellType::Sand);
    u.set_cell(5, 7, CellType::Rock);
    u.set_cell(63, 63, CellType::Water);
    u.set_width(3);
    assert_eq!(u.width(), 3);
    assert_eq!(u.height(), 64);
    assert!(u.cells().iter().all(|&c| c == 0));
    u.set_cell(0, 2, CellType::Sand);
    u.set_cell(1, 1, CellType::Water);
    u.set_height(4);
    assert_eq!(u.width(), 3);
    assert_eq!(u.height(), 4);
    assert!(u.cells().iter().all(|&c| c == 0));
}

#[test]
fn three_by_three_sand_scenario() {
    // Sand at the top middle of a 3-by-3 grid: down one cell on the first
    // tick, down to the floor on the second, then the diagonal probes fall
    // outside the grid and the cell settles with its energy reset.
    let mut u = Universe::new();
    u.set_width(3);
    u.set_height(3);
    u.set_cell(0, 1, CellType::Sand);
    u.tick();
    assert_eq!(u.get_cells()[flat(3, 0, 1)].id, CellType::Dead);
    assert_eq!(u.get_cells()[flat(3, 1, 1)].id, CellType::Sand);
    assert_eq!(u.get_cells()[flat(3, 1, 1)].energy, 1);
    u.tick();
    assert_eq!(u.get_cells()[flat(3, 2, 1)].id, CellType::Sand);
    assert_eq!(u.get_cells()[flat(3, 2, 1)].energy, 2);
    u.tick();
    assert_eq!(u.get_cells()[flat(3, 2, 1)].id, CellType::Sand);
    assert_eq!(u.get_cells()[flat(3, 2, 1)].energy, 0);
}

#[test]
fn materials_are_conserved_across_ticks() {
    let mut u = Universe::new();
    u.set_width(4);
    u.set_height(4);
    u.set_cell(0, 0, CellType::Sand);
    u.set_cell(0, 1, CellType::Water);
    u.set_cell(0, 2, CellType::Sand);
    u.set_cell(1, 1, CellType::Water);
    u.set_cell(3, 2, CellType::Rock);
    u.set_cell(2, 3, CellType::Rock);
    let count = |u: &Universe, code: u8| u.cells().iter().filter(|&&c| c == code).count();
    let dead0 = count(&u, 0);
    let sand0 = count(&u, 1);
    let water0 = count(&u, 2);
    let rock0 = count(&u, 3);
    for _ in 0..8 {
        u.tick();
        assert_eq!(count(&u, 0), dead0);
        assert_eq!(count(&u, 1), sand0);
        assert_eq!(count(&u, 2), water0);
        assert_eq!(count(&u, 3), rock0);
    }
}

#[test]
fn sand_sinks_through_water() {
    let mut u = Universe::new();
    u.set_width(1);
    u.set_height(3);
    u.set_cell(0, 0, CellType::Sand);
    u.set_cell(1, 0, CellType::Water);
    u.set_cell(2, 0, CellType::Rock);
    u.tick();
    let cells = u.get_cells();
    assert_eq!(cells[0].id, CellType::Water);
    assert_eq!(cells[1].id, CellType::Sand);
    assert_eq!(cells[1].energy, 1);
    assert_eq!(cells[2].id, CellType::Rock);
}

#[test]
fn water_does_not_sink_through_water() {
    let mut u = Universe::new();
    u.set_width(1);
    u.set_height(3);
    u.set_cell(0, 0, CellType::Water);
    u.set_cell(1, 0, CellType::Water);
    u.set_cell(2, 0, CellType::Rock);
    u.tick();
    let cells = u.get_cells();
    assert_eq!(cells[0].id, CellType::Water);
    assert_eq!(cells[1].id, CellType::Water);
    assert_eq!(cells[0].energy, 0);
    assert_eq!(cells[1].energy, 0);
}

#[test]
fn movers_do_not_jump_over_obstructions() {
    // A rock in mid-column with clear space below it: the probe run stops
    // at the rock, the water above never crosses it.
    let mut u = Universe::new();
    u.set_width(1);
    u.set_height(6);
    u.set_cell(0, 0, CellType::Water);
    u.set_cell(2, 0, CellType::Rock);
    u.tick();
    assert_eq!(u.get_cells()[1].id, CellType::Water);
    assert_eq!(u.get_cells()[1].energy, 1);
    for _ in 0..4 {
        u.tick();
        assert_eq!(u.get_cells()[1].id, CellType::Water);
    }
    for r in 3..6 {
        assert_eq!(u.get_cells()[r].id, CellType::Dead);
    }
}

#[test]
fn sand_diagonal_choice_follows_injected_bits() {
    // Sand on a rock with both diagonals free: the scanned run covers both
    // candidates, and the move lands on the second of the tie-break order.
    let mut u = Universe::new();
    u.set_width(3);
    u.set_height(2);
    u.set_cell(0, 1, CellType::Sand);
    u.set_cell(1, 1, CellType::Rock);
    u.set_random_bits(vec![true]);
    u.tick();
    assert_eq!(u.get_cells()[flat(3, 1, 2)].id, CellType::Sand);

    let mut v = Universe::new();
    v.set_width(3);
    v.set_height(2);
    v.set_cell(0, 1, CellType::Sand);
    v.set_cell(1, 1, CellType::Rock);
    v.set_random_bits(vec![false]);
    v.tick();
    assert_eq!(v.get_cells()[flat(3, 1, 0)].id, CellType::Sand);
}

#[test]
fn blocked_first_diagonal_stops_the_probe() {
    // The diagonal run is a contiguous prefix: when the first candidate of
    // the chosen order is blocked, the second is never reached.
    let mut u = Universe::new();
    u.set_width(3);
    u.set_height(2);
    u.set_cell(0, 1, CellType::Sand);
    u.set_cell(1, 1, CellType::Rock);
    u.set_cell(1, 0, CellType::Rock);
    // left first, but the left diagonal is rock: sand settles.
    u.set_random_bits(vec![true]);
    u.tick();
    assert_eq!(u.get_cells()[flat(3, 0, 1)].id, CellType::Sand);
    assert_eq!(u.get_cells()[flat(3, 1, 2)].id, CellType::Dead);
    // right first: the free right diagonal is taken.
    let mut v = Universe::new();
    v.set_width(3);
    v.set_height(2);
    v.set_cell(0, 1, CellType::Sand);
    v.set_cell(1, 1, CellType::Rock);
    v.set_cell(1, 0, CellType::Rock);
    v.set_random_bits(vec![false]);
    v.tick();
    assert_eq!(v.get_cells()[flat(3, 1, 2)].id, CellType::Sand);
}

#[test]
fn painting_a_cell_keeps_its_physics_state() {
    // set_cell overwrites the material only: energy and the update flag of
    // the painted cell stay as they were.
    let mut u = Universe::new();
    u.set_width(1);
    u.set_height(3);
    u.set_cell(0, 0, CellType::Sand);
    u.tick();
    assert_eq!(u.get_cells()[1].energy, 1);
    u.set_cell(1, 0, CellType::Water);
    assert_eq!(u.get_cells()[1].id, CellType::Water);
    assert_eq!(u.get_cells()[1].energy, 1);
}

#[test]
fn cell_codes_match_materials() {
    let mut u = Universe::new();
    u.set_width(2);
    u.set_height(2);
    u.set_cell(0, 0, CellType::Sand);
    u.set_cell(0, 1, CellType::Water);
    u.set_cell(1, 0, CellType::Rock);
    let codes = u.cells();
    assert_eq!(codes, vec![1, 2, 3, 0]);
}

#[test]
fn render_draws_one_glyph_per_cell() {
    let mut u = Universe::new();
    u.set_width(3);
    u.set_height(2);
    u.set_cell(0, 0, CellType::Sand);
    u.set_cell(1, 2, CellType::Rock);
    u.set_cell(1, 1, CellType::Water);
    let text = u.render_to_console();
    assert_eq!(text, "#..\n.##\n");
}

#[test]
fn drained_bit_queue_defaults_to_left_first() {
    // With no queued bits every draw is `true` (left first): sand on a rock
    // with both diagonals free lands on the right-hand candidate, the last
    // of the left-first run.
    let mut u = Universe::new();
    u.set_width(3);
    u.set_height(2);
    u.set_cell(0, 1, CellType::Sand);
    u.set_cell(1, 1, CellType::Rock);
    u.tick();
    assert_eq!(u.get_cells()[flat(3, 1, 2)].id, CellType::Sand);
}
