use seagull::automaton::Automaton;
use seagull::cgol::{from_slice, Cgol, CgolCell};

fn all_dead(cgol: &Automaton<Cgol>) -> bool {
    let mut ok = true;
    for row in 0..cgol.rows() {
        for col in 0..cgol.cols() {
            ok = ok && cgol.cell(col, row) == CgolCell::Dead;
        }
    }
    ok
}

#[test]
fn fresh_is_default_and_step_is_noop() {
    let mut cgol = Automaton::<Cgol>::new(4, 3);
    assert!(all_dead(&cgol));
    cgol.step();
    assert!(all_dead(&cgol));
    assert_eq!(cgol.cols(), 4);
    assert_eq!(cgol.rows(), 3);
}

#[test]
fn degenerate_dims_step_is_noop() {
    let mut a = Automaton::<Cgol>::new(0, 0);
    a.step();
    assert_eq!(a.cols(), 0);
    assert_eq!(a.rows(), 0);

    let mut b = Automaton::<Cgol>::new(0, 5);
    b.step();
    assert_eq!(b.cols(), 0);
    assert_eq!(b.rows(), 5);

    let mut c = Automaton::<Cgol>::new(5, 0);
    c.step();
    assert!(all_dead(&c));
}

#[test]
fn put_clips_negative_offset() {
    let mut cgol = Automaton::<Cgol>::new(4, 4);
    // an untouched live cell far from the pattern's footprint
    cgol.set_cell(3, 3, CgolCell::Live(5));

    let block = from_slice(2, 2, &[1, 1, 1, 1]);
    cgol.put(&block, -1, -1);

    // only the block's bottom-right cell lands inside the grid
    assert_eq!(cgol.cell(0, 0), CgolCell::Live(0));
    assert_eq!(cgol.cell(1, 0), CgolCell::Dead);
    assert_eq!(cgol.cell(0, 1), CgolCell::Dead);
    assert_eq!(cgol.cell(1, 1), CgolCell::Dead);
    // the cell outside the footprint is untouched
    assert_eq!(cgol.cell(3, 3), CgolCell::Live(5));
}

#[test]
fn put_clips_overhang_right_bottom() {
    let mut cgol = Automaton::<Cgol>::new(3, 3);
    let block = from_slice(2, 2, &[1, 1, 1, 1]);
    cgol.put(&block, 2, 2);
    // only the block's top-left cell lands inside the grid
    assert_eq!(cgol.cell(2, 2), CgolCell::Live(0));
    assert_eq!(cgol.cell(1, 2), CgolCell::Dead);
    assert_eq!(cgol.cell(2, 1), CgolCell::Dead);
}

#[test]
fn put_then_step_consistent_with_set_cells() {
    // placement goes through the same transition path as set_cell, so a
    // pattern placed with put evolves exactly like one set cell by cell
    let mut via_put = Automaton::<Cgol>::new(5, 5);
    let blinker = from_slice(1, 3, &[1, 1, 1]);
    via_put.put(&blinker, 2, 1);

    let mut via_set = Automaton::<Cgol>::new(5, 5);
    via_set.set_cell(2, 1, CgolCell::Live(0));
    via_set.set_cell(2, 2, CgolCell::Live(0));
    via_set.set_cell(2, 3, CgolCell::Live(0));

    via_put.step();
    via_set.step();

    for row in 0..5 {
        for col in 0..5 {
            assert_eq!(via_put.cell(col, row), via_set.cell(col, row));
        }
    }
}

#[test]
fn clear_is_idempotent_and_step_after_clear_is_noop() {
    let mut cgol = Automaton::<Cgol>::new(5, 5);
    cgol.set_cell(1, 2, CgolCell::Live(0));
    cgol.set_cell(2, 2, CgolCell::Live(0));
    cgol.set_cell(3, 2, CgolCell::Live(0));
    cgol.step();

    cgol.clear();
    assert!(all_dead(&cgol));
    cgol.clear();
    assert!(all_dead(&cgol));

    cgol.step();
    assert!(all_dead(&cgol));

    // the automaton still works normally after a clear
    cgol.set_cell(1, 1, CgolCell::Live(0));
    cgol.set_cell(1, 2, CgolCell::Live(0));
    cgol.set_cell(2, 1, CgolCell::Live(0));
    cgol.set_cell(2, 2, CgolCell::Live(0));
    cgol.step();
    assert_eq!(cgol.cell(1, 1), CgolCell::Live(1));
}

#[test]
fn set_cell_overwrite_keeps_counts_consistent() {
    // overwriting a live cell with another live state carries no neighbor
    // effect; killing it afterwards must still leave consistent counts
    let mut cgol = Automaton::<Cgol>::new(5, 5);
    cgol.set_cell(1, 1, CgolCell::Live(0));
    cgol.set_cell(1, 1, CgolCell::Live(9));
    cgol.set_cell(2, 1, CgolCell::Live(0));
    cgol.set_cell(1, 2, CgolCell::Live(0));
    cgol.set_cell(2, 2, CgolCell::Live(0));
    cgol.step();
    assert_eq!(cgol.cell(1, 1), CgolCell::Live(10));
    assert_eq!(cgol.cell(2, 2), CgolCell::Live(1));
}

#[test]
fn with_cell_mut_toggles_and_returns() {
    let mut cgol = Automaton::<Cgol>::new(3, 3);
    let was_live = cgol.with_cell_mut(1, 1, |mut s| {
        let live = matches!(s, CgolCell::Live(_));
        s.toggle();
        (s, live)
    });
    assert!(!was_live);
    assert_eq!(cgol.cell(1, 1), CgolCell::Live(0));

    // the edit is consistent with a subsequent step: a lone live cell dies
    cgol.step();
    assert_eq!(cgol.cell(1, 1), CgolCell::Dead);
}

#[test]
fn cells_returns_front_grid() {
    let mut cgol = Automaton::<Cgol>::new(3, 3);
    cgol.set_cell(0, 2, CgolCell::Live(3));
    let g = cgol.cells();
    assert_eq!(g.cols(), 3);
    assert_eq!(g.rows(), 3);
    assert_eq!(g.get(0, 2), CgolCell::Live(3));
    assert_eq!(g.get(1, 1), CgolCell::Dead);
}
