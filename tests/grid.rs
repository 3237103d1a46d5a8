use tic_tac_toe::model::{CellGrid, CellShape, Line};

use CellShape::{Circle, Cross};

fn grid(size: usize) -> CellGrid {
    CellGrid::new(size).expect("non-zero size")
}

fn fill(g: &mut CellGrid, rows: &[&[Option<CellShape>]]) {
    for (r, row) in rows.iter().enumerate() {
        for (c, cell) in row.iter().enumerate() {
            g.set(r, c, *cell);
        }
    }
}

#[test]
fn zero_size_is_rejected() {
    assert!(CellGrid::new(0).is_none());
}

#[test]
fn fresh_grid_is_neither_full_nor_solved() {
    for n in 1..8 {
        let g = grid(n);
        assert_eq!(g.size(), n);
        assert!(!g.is_full());
        assert!(!g.is_solved());
        for r in 0..n {
            for c in 0..n {
                assert_eq!(g.get(r, c), None);
            }
        }
    }
}

#[test]
fn complement_swaps_shapes() {
    assert_eq!(Circle.complement(), Cross);
    assert_eq!(Cross.complement(), Circle);
    assert_eq!(!Circle, Cross);
    assert_eq!(!Cross, Circle);
}

#[test]
fn set_and_get_one_cell() {
    let mut g = grid(3);
    g.set(1, 2, Some(Cross));
    assert_eq!(g.get(1, 2), Some(Cross));
    assert_eq!(g.get(2, 1), None);
    g.set(1, 2, None);
    assert_eq!(g.get(1, 2), None);
}

#[test]
fn uniform_row_column_and_diagonals_solve() {
    for n in 1..6 {
        for k in 0..n {
            let mut g = grid(n);
            for i in 0..n {
                g.set(k, i, Some(Circle));
            }
            assert!(g.is_solved());
            assert!(g.is_line_won(Line::Row(k)));

            let mut g = grid(n);
            for i in 0..n {
                g.set(i, k, Some(Cross));
            }
            assert!(g.is_solved());
            assert!(g.is_line_won(Line::Column(k)));
        }
        let mut g = grid(n);
        for i in 0..n {
            g.set(i, i, Some(Cross));
        }
        assert!(g.is_solved());
        assert!(g.is_line_won(Line::Diagonal));

        let mut g = grid(n);
        for i in 0..n {
            g.set(i, n - 1 - i, Some(Circle));
        }
        assert!(g.is_solved());
        assert!(g.is_line_won(Line::AntiDiagonal));
    }
}

#[test]
fn mixed_line_does_not_solve() {
    let mut g = grid(3);
    g.set(0, 0, Some(Circle));
    g.set(0, 1, Some(Cross));
    g.set(0, 2, Some(Circle));
    assert!(!g.is_line_won(Line::Row(0)));
    assert!(!g.is_solved());

    let mut g = grid(3);
    g.set(0, 2, Some(Cross));
    g.set(1, 1, Some(Cross));
    g.set(2, 0, Some(Circle));
    assert!(!g.is_line_won(Line::AntiDiagonal));
    assert!(!g.is_solved());
}

#[test]
fn incomplete_line_does_not_solve() {
    let mut g = grid(3);
    g.set(2, 0, Some(Circle));
    g.set(2, 1, Some(Circle));
    assert!(!g.is_line_won(Line::Row(2)));
    assert!(!g.is_solved());
}

#[test]
fn clear_non_solved_keeps_only_won_row() {
    let mut g = grid(3);
    fill(
        &mut g,
        &[
            &[Some(Circle), Some(Circle), Some(Circle)],
            &[Some(Cross), Some(Cross), None],
            &[None, None, Some(Cross)],
        ],
    );
    assert!(g.is_solved());
    g.clear_non_solved();
    for c in 0..3 {
        assert_eq!(g.get(0, c), Some(Circle));
    }
    for r in 1..3 {
        for c in 0..3 {
            assert_eq!(g.get(r, c), None);
        }
    }
}

#[test]
fn clear_non_solved_keeps_crossing_lines() {
    let mut g = grid(3);
    fill(
        &mut g,
        &[
            &[Some(Cross), Some(Cross), Some(Cross)],
            &[Some(Circle), Some(Cross), Some(Circle)],
            &[Some(Circle), Some(Cross), Some(Circle)],
        ],
    );
    g.clear_non_solved();
    let expected = [
        [Some(Cross), Some(Cross), Some(Cross)],
        [None, Some(Cross), None],
        [None, Some(Cross), None],
    ];
    for r in 0..3 {
        for c in 0..3 {
            assert_eq!(g.get(r, c), expected[r][c]);
        }
    }
}

#[test]
fn clear_non_solved_without_win_changes_nothing() {
    let mut g = grid(3);
    g.set(0, 0, Some(Circle));
    g.set(1, 2, Some(Cross));
    let before = g.clone();
    g.clear_non_solved();
    assert_eq!(g, before);
    assert_eq!(g.get(0, 0), Some(Circle));
    assert_eq!(g.get(1, 2), Some(Cross));
    for r in 0..3 {
        for c in 0..3 {
            if (r, c) != (0, 0) && (r, c) != (1, 2) {
                assert_eq!(g.get(r, c), None);
            }
        }
    }
}

#[test]
fn clear_all_leaves_grid_not_full() {
    let mut g = grid(2);
    fill(&mut g, &[&[Some(Circle), Some(Cross)], &[Some(Cross), Some(Circle)]]);
    assert!(g.is_full());
    g.clear_all();
    assert!(!g.is_full());
    assert!(!g.is_solved());
    assert_eq!(g.size(), 2);
}

#[test]
fn full_grid_without_line_is_draw() {
    let mut g = grid(3);
    fill(
        &mut g,
        &[
            &[Some(Cross), Some(Circle), Some(Cross)],
            &[Some(Circle), Some(Cross), Some(Circle)],
            &[Some(Circle), Some(Cross), Some(Circle)],
        ],
    );
    assert!(g.is_full());
    assert!(!g.is_solved());
}

#[test]
fn one_by_one_grid_is_solved_by_one_mark() {
    let mut g = grid(1);
    g.set(0, 0, Some(Cross));
    assert!(g.is_full());
    assert!(g.is_solved());
}
