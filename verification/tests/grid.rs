use seagull::grid::{DimensionMismatch, Grid};

#[test]
fn empty() {
    let grid = Grid::<()>::new(0, 0);
    assert_eq!(grid.cols(), 0);
    assert_eq!(grid.rows(), 0);
}

#[test]
fn index() {
    let mut grid = Grid::new(3, 3);

    grid.set(0, 0, 1);
    grid.set(1, 2, 2);
    grid.set(2, 1, 3);

    assert_eq!(grid.get(0, 0), 1);
    assert_eq!(grid.get(1, 2), 2);
    assert_eq!(grid.get(2, 1), 3);
}

#[test]
fn iter() {
    let mut grid = Grid::new(3, 3);

    let mut it = grid.indices();
    while let Some((col, row)) = it.next() {
        grid.set(col, row, (col, row));
    }

    assert_eq!(grid.get(0, 0), (0, 0));
    assert_eq!(grid.get(1, 0), (1, 0));
    assert_eq!(grid.get(2, 0), (2, 0));

    assert_eq!(grid.get(0, 1), (0, 1));
    assert_eq!(grid.get(1, 1), (1, 1));
    assert_eq!(grid.get(2, 1), (2, 1));

    assert_eq!(grid.get(0, 2), (0, 2));
    assert_eq!(grid.get(1, 2), (1, 2));
    assert_eq!(grid.get(2, 2), (2, 2));
}

#[test]
fn indices_row_major_and_restartable() {
    let grid = Grid::<u8>::new(2, 3);

    let mut seen: Vec<(usize, usize)> = Vec::new();
    let mut it = grid.indices();
    while let Some(p) = it.next() {
        seen.push(p);
    }
    assert_eq!(seen, vec![(0, 0), (1, 0), (0, 1), (1, 1), (0, 2), (1, 2)]);
    assert_eq!(it.next(), None);
    assert_eq!(it.next(), None);

    // a fresh iterator starts over in the same order
    let mut it2 = grid.indices();
    assert_eq!(it2.next(), Some((0, 0)));
}

#[test]
fn indices_degenerate_dims() {
    let mut it = Grid::<u8>::new(0, 3).indices();
    assert_eq!(it.next(), None);
    let mut it2 = Grid::<u8>::new(3, 0).indices();
    assert_eq!(it2.next(), None);
}

#[test]
fn swap_dimension_mismatch_fails() {
    let mut a = Grid::<u8>::new(3, 3);
    let mut b = Grid::<u8>::new(3, 4);
    a.set(1, 1, 9);
    assert_eq!(a.swap(&mut b), Err(DimensionMismatch));
    // neither grid was truncated, padded or otherwise touched
    assert_eq!(a.get(1, 1), 9);
    assert_eq!(b.get(1, 1), 0);
    assert_eq!(a.cols(), 3);
    assert_eq!(a.rows(), 3);
    assert_eq!(b.cols(), 3);
    assert_eq!(b.rows(), 4);
}

#[test]
fn swap_exchanges_storage() {
    let mut a = Grid::<u8>::new(2, 2);
    let mut b = Grid::<u8>::new(2, 2);
    a.set(0, 0, 1);
    b.set(1, 1, 2);
    assert_eq!(a.swap(&mut b), Ok(()));
    assert_eq!(a.get(0, 0), 0);
    assert_eq!(a.get(1, 1), 2);
    assert_eq!(b.get(0, 0), 1);
    assert_eq!(b.get(1, 1), 0);
}

#[test]
fn clone_from_dimension_mismatch_fails() {
    let mut a = Grid::<u8>::new(2, 3);
    let mut b = Grid::<u8>::new(3, 2);
    b.set(0, 0, 5);
    assert_eq!(a.clone_from(&b), Err(DimensionMismatch));
    assert_eq!(a.get(0, 0), 0);
}

#[test]
fn clone_from_copies_elements() {
    let mut a = Grid::<u8>::new(2, 2);
    let mut b = Grid::<u8>::new(2, 2);
    b.set(0, 1, 5);
    b.set(1, 0, 6);
    assert_eq!(a.clone_from(&b), Ok(()));
    assert_eq!(a.get(0, 1), 5);
    assert_eq!(a.get(1, 0), 6);
    // the source is untouched
    assert_eq!(b.get(0, 1), 5);
}

#[test]
fn from_slice_checks_length() {
    let ok = Grid::<u8>::from_slice(2, 2, &[1, 2, 3, 4]);
    assert!(ok.is_ok());
    let g = ok.unwrap();
    assert_eq!(g.get(0, 0), 1);
    assert_eq!(g.get(1, 0), 2);
    assert_eq!(g.get(0, 1), 3);
    assert_eq!(g.get(1, 1), 4);

    assert_eq!(
        Grid::<u8>::from_slice(2, 2, &[1, 2, 3]).err(),
        Some(DimensionMismatch)
    );
    assert_eq!(
        Grid::<u8>::from_slice(2, 2, &[1, 2, 3, 4, 5]).err(),
        Some(DimensionMismatch)
    );
}

#[test]
fn clear_resets_to_default() {
    let mut g = Grid::<u8>::new(2, 2);
    g.set(0, 0, 3);
    g.set(1, 1, 4);
    g.clear();
    assert_eq!(g.get(0, 0), 0);
    assert_eq!(g.get(1, 0), 0);
    assert_eq!(g.get(0, 1), 0);
    assert_eq!(g.get(1, 1), 0);
}
