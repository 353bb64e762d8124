use seagull::automaton::{Automaton, Ruleset};
use seagull::cgol::{from_slice, Cgol, CgolCell};

fn cell_at(cgol: &Automaton<Cgol>, col: usize, row: usize) -> CgolCell {
    cgol.cell(col, row)
}

fn assert_grid(cgol: &Automaton<Cgol>, expected: &[(usize, usize, CgolCell)]) {
    for row in 0..cgol.rows() {
        for col in 0..cgol.cols() {
            let want = expected
                .iter()
                .find(|&&(c, r, _)| c == col && r == row)
                .map(|&(_, _, s)| s)
                .unwrap_or(CgolCell::Dead);
            assert_eq!(cell_at(cgol, col, row), want, "cell ({}, {})", col, row);
        }
    }
}

#[test]
fn square() {
    let mut cgol = Automaton::<Cgol>::new(5, 5);

    cgol.set_cell(1, 1, CgolCell::Live(0));
    cgol.set_cell(1, 2, CgolCell::Live(0));
    cgol.set_cell(2, 1, CgolCell::Live(0));
    cgol.set_cell(2, 2, CgolCell::Live(0));

    cgol.step();

    // the still life survives with every age bumped by exactly one
    assert_grid(
        &cgol,
        &[
            (1, 1, CgolCell::Live(1)),
            (1, 2, CgolCell::Live(1)),
            (2, 1, CgolCell::Live(1)),
            (2, 2, CgolCell::Live(1)),
        ],
    );
}

#[test]
fn blinker() {
    let mut cgol = Automaton::<Cgol>::new(5, 5);
    cgol.set_cell(1, 2, CgolCell::Live(0));
    cgol.set_cell(2, 2, CgolCell::Live(0));
    cgol.set_cell(3, 2, CgolCell::Live(0));

    cgol.step();

    assert_grid(
        &cgol,
        &[
            (2, 1, CgolCell::Live(0)),
            (2, 2, CgolCell::Live(1)),
            (2, 3, CgolCell::Live(0)),
        ],
    );
}

#[test]
fn blinker_oscillates_back() {
    let mut cgol = Automaton::<Cgol>::new(5, 5);
    cgol.set_cell(1, 2, CgolCell::Live(0));
    cgol.set_cell(2, 2, CgolCell::Live(0));
    cgol.set_cell(3, 2, CgolCell::Live(0));

    cgol.step();
    cgol.step();

    // after the second step the original horizontal cells are live again
    // and the vertical ones are dead
    assert_grid(
        &cgol,
        &[
            (1, 2, CgolCell::Live(0)),
            (2, 2, CgolCell::Live(2)),
            (3, 2, CgolCell::Live(0)),
        ],
    );
}

#[test]
fn glider_translates() {
    // four generations move a glider one cell right and one down; getting
    // every intermediate neighbor count right is what carries it
    let mut cgol = Automaton::<Cgol>::new(6, 6);
    let glider = from_slice(3, 3, &[0, 1, 0, 0, 0, 1, 1, 1, 1]);
    cgol.put(&glider, 0, 0);

    let start: Vec<(usize, usize)> = live_cells(&cgol);
    assert_eq!(start, vec![(1, 0), (2, 1), (0, 2), (1, 2), (2, 2)]);

    for _ in 0..4 {
        cgol.step();
    }

    let moved: Vec<(usize, usize)> = live_cells(&cgol);
    let expected: Vec<(usize, usize)> = start.iter().map(|&(c, r)| (c + 1, r + 1)).collect();
    assert_eq!(moved, expected);
}

fn live_cells(cgol: &Automaton<Cgol>) -> Vec<(usize, usize)> {
    let mut out = Vec::new();
    for row in 0..cgol.rows() {
        for col in 0..cgol.cols() {
            if matches!(cgol.cell(col, row), CgolCell::Live(_)) {
                out.push((col, row));
            }
        }
    }
    out
}

#[test]
fn toggle_flips() {
    let mut c = CgolCell::Dead;
    c.toggle();
    assert_eq!(c, CgolCell::Live(0));
    c.toggle();
    assert_eq!(c, CgolCell::Dead);
    let mut aged = CgolCell::Live(7);
    aged.toggle();
    assert_eq!(aged, CgolCell::Dead);
}

#[test]
fn default_is_dead() {
    assert_eq!(CgolCell::default(), CgolCell::Dead);
}

#[test]
fn age_saturates() {
    assert_eq!(
        <Cgol as Ruleset>::next(&CgolCell::Live(254), &2),
        CgolCell::Live(255)
    );
    assert_eq!(
        <Cgol as Ruleset>::next(&CgolCell::Live(255), &3),
        CgolCell::Live(255)
    );
}

#[test]
fn transition_table() {
    // live with 2 or 3 neighbors survives, otherwise dies
    assert_eq!(
        <Cgol as Ruleset>::next(&CgolCell::Live(4), &2),
        CgolCell::Live(5)
    );
    assert_eq!(
        <Cgol as Ruleset>::next(&CgolCell::Live(4), &3),
        CgolCell::Live(5)
    );
    assert_eq!(<Cgol as Ruleset>::next(&CgolCell::Live(4), &1), CgolCell::Dead);
    assert_eq!(<Cgol as Ruleset>::next(&CgolCell::Live(4), &4), CgolCell::Dead);
    // dead with exactly 3 neighbors is born, otherwise stays dead
    assert_eq!(<Cgol as Ruleset>::next(&CgolCell::Dead, &3), CgolCell::Live(0));
    assert_eq!(<Cgol as Ruleset>::next(&CgolCell::Dead, &2), CgolCell::Dead);
    assert_eq!(<Cgol as Ruleset>::next(&CgolCell::Dead, &4), CgolCell::Dead);
}

#[test]
fn neighbor_update_saturates() {
    let mut n: u8 = 0;
    // a dying neighbor cannot drive the count below zero
    <Cgol as Ruleset>::update_neighbor(&CgolCell::Live(1), &CgolCell::Dead, &mut n);
    assert_eq!(n, 0);
    let mut m: u8 = 3;
    <Cgol as Ruleset>::update_neighbor(&CgolCell::Dead, &CgolCell::Live(0), &mut m);
    assert_eq!(m, 4);
    // a transition without a liveness change leaves the count alone
    let mut k: u8 = 3;
    <Cgol as Ruleset>::update_neighbor(&CgolCell::Live(1), &CgolCell::Live(2), &mut k);
    assert_eq!(k, 3);
}

#[test]
fn from_slice_maps_values() {
    let g = from_slice(2, 2, &[1, 0, 0, 9]);
    assert_eq!(g.get(0, 0), CgolCell::Live(0));
    assert_eq!(g.get(1, 0), CgolCell::Dead);
    assert_eq!(g.get(0, 1), CgolCell::Dead);
    assert_eq!(g.get(1, 1), CgolCell::Live(0));
}
