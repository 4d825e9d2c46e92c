use minesweeper::board::Board;
use minesweeper::cell::CellState;
use minesweeper::generate::{
    fill_mines, generate_board, generate_board_within, is_valid_configuration,
};
use rand::rngs::StdRng;
use rand::SeedableRng;

fn mined(board: &Board, x: i64, y: i64) -> bool {
    x >= 0
        && y >= 0
        && (x as usize) < board.width()
        && (y as usize) < board.height()
        && board.cell(x as usize, y as usize).is_bomb()
}

fn brute_force_count(board: &Board, x: usize, y: usize) -> u8 {
    let mut n = 0;
    for dy in -1i64..=1 {
        for dx in -1i64..=1 {
            if (dx, dy) != (0, 0) && mined(board, x as i64 + dx, y as i64 + dy) {
                n += 1;
            }
        }
    }
    n
}

fn count_mines(board: &Board) -> usize {
    let mut n = 0;
    for y in 0..board.height() {
        for x in 0..board.width() {
            if board.cell(x, y).is_bomb() {
                n += 1;
            }
        }
    }
    n
}

fn check_generated(board: &Board, width: usize, height: usize, mines: usize) {
    assert_eq!(board.width(), width);
    assert_eq!(board.height(), height);
    assert_eq!(board.mines(), mines);
    assert_eq!(count_mines(board), mines);
    let mut empties = 0;
    for y in 0..height {
        for x in 0..width {
            let cell = board.cell(x, y);
            assert!(cell.is_hidden());
            match cell {
                CellState::Empty { count, hidden } => {
                    empties += 1;
                    assert!(hidden);
                    assert!(count <= 8);
                    assert_eq!(count, brute_force_count(board, x, y));
                }
                CellState::Bomb { hidden } => assert!(hidden),
            }
        }
    }
    assert_eq!(empties, width * height - mines);
}

#[test]
fn cell_open_reveals_and_reports_mines() {
    let mut empty = CellState::Empty { count: 3, hidden: true };
    assert!(!empty.open());
    assert_eq!(empty, CellState::Empty { count: 3, hidden: false });
    assert!(!empty.open());
    assert_eq!(empty, CellState::Empty { count: 3, hidden: false });

    let mut bomb = CellState::Bomb { hidden: true };
    assert!(bomb.open());
    assert_eq!(bomb, CellState::Bomb { hidden: false });
}

#[test]
fn cell_kind_predicates() {
    let empty = CellState::Empty { count: 0, hidden: true };
    let bomb = CellState::Bomb { hidden: false };
    assert!(empty.is_empty());
    assert!(!empty.is_bomb());
    assert!(bomb.is_bomb());
    assert!(!bomb.is_empty());
    assert!(empty.is_hidden());
    assert!(!bomb.is_hidden());
}

#[test]
fn cell_glyphs() {
    assert_eq!(CellState::Empty { count: 0, hidden: true }.glyph(), '*');
    assert_eq!(CellState::Empty { count: 5, hidden: true }.glyph(), '*');
    assert_eq!(CellState::Bomb { hidden: true }.glyph(), '*');
    assert_eq!(CellState::Empty { count: 0, hidden: false }.glyph(), '.');
    assert_eq!(CellState::Empty { count: 1, hidden: false }.glyph(), '1');
    assert_eq!(CellState::Empty { count: 3, hidden: false }.glyph(), '3');
    assert_eq!(CellState::Empty { count: 8, hidden: false }.glyph(), '8');
    assert_eq!(CellState::Bomb { hidden: false }.glyph(), 'X');
}

#[test]
fn blank_board_is_empty_and_hidden() {
    let board = Board::blank(4, 3);
    assert_eq!(board.width(), 4);
    assert_eq!(board.height(), 3);
    assert_eq!(board.mines(), 0);
    for y in 0..3 {
        for x in 0..4 {
            assert_eq!(board.cell(x, y), CellState::Empty { count: 0, hidden: true });
        }
    }
}

#[test]
fn place_mine_rejects_a_mined_square() {
    let mut board = Board::blank(3, 2);
    assert!(board.place_mine(2, 1));
    assert_eq!(board.cell(2, 1), CellState::Bomb { hidden: true });
    assert_eq!(board.mines(), 1);
    assert!(!board.place_mine(2, 1));
    assert_eq!(board.mines(), 1);
    assert!(board.place_mine(0, 0));
    assert_eq!(board.mines(), 2);
    assert_eq!(count_mines(&board), 2);
    assert_eq!(board.cell(1, 0), CellState::Empty { count: 0, hidden: true });
}

#[test]
fn counts_on_three_by_three_with_fixed_mines() {
    let mut board = Board::blank(3, 3);
    assert!(board.place_mine(0, 0));
    assert!(board.place_mine(2, 1));
    assert!(board.place_mine(1, 2));
    board.count_neighbours();
    let expected: [[Option<u8>; 3]; 3] =
        [[None, Some(2), Some(1)], [Some(2), Some(3), None], [Some(1), None, Some(2)]];
    for y in 0..3 {
        for x in 0..3 {
            match expected[y][x] {
                Some(n) => {
                    assert_eq!(board.cell(x, y), CellState::Empty { count: n, hidden: true });
                    assert_eq!(n, brute_force_count(&board, x, y));
                }
                None => assert_eq!(board.cell(x, y), CellState::Bomb { hidden: true }),
            }
        }
    }
    assert_eq!(board.mines(), 3);
}

#[test]
fn counts_reach_eight_in_the_middle_of_a_ring() {
    let mut board = Board::blank(3, 3);
    for y in 0..3 {
        for x in 0..3 {
            if (x, y) != (1, 1) {
                assert!(board.place_mine(x, y));
            }
        }
    }
    board.count_neighbours();
    assert_eq!(board.cell(1, 1), CellState::Empty { count: 8, hidden: true });
}

#[test]
fn counts_are_clipped_at_the_edges() {
    let mut board = Board::blank(4, 1);
    assert!(board.place_mine(0, 0));
    assert!(board.place_mine(3, 0));
    board.count_neighbours();
    assert_eq!(board.cell(1, 0), CellState::Empty { count: 1, hidden: true });
    assert_eq!(board.cell(2, 0), CellState::Empty { count: 1, hidden: true });
}

#[test]
fn generate_has_exact_mine_and_empty_counts() {
    let configurations: [(usize, usize, usize); 8] = [
        (1, 1, 0),
        (2, 2, 1),
        (2, 2, 3),
        (3, 3, 4),
        (5, 4, 0),
        (5, 4, 19),
        (10, 7, 7),
        (1, 9, 5),
    ];
    for seed in 0..20u64 {
        let mut rng = StdRng::seed_from_u64(seed);
        for &(width, height, mines) in configurations.iter() {
            assert!(is_valid_configuration(width, height, mines));
            let board = generate_board(width, height, mines, &mut rng);
            check_generated(&board, width, height, mines);
        }
    }
}

#[test]
fn generate_without_mines_counts_nothing() {
    let mut rng = StdRng::seed_from_u64(7);
    let board = generate_board(3, 2, 0, &mut rng);
    for y in 0..2 {
        for x in 0..3 {
            assert_eq!(board.cell(x, y), CellState::Empty { count: 0, hidden: true });
        }
    }
}

#[test]
fn generate_can_leave_a_single_safe_square() {
    let mut rng = StdRng::seed_from_u64(11);
    let board = generate_board(3, 3, 8, &mut rng);
    check_generated(&board, 3, 3, 8);
    let mut safe = Vec::new();
    for y in 0..3 {
        for x in 0..3 {
            if board.cell(x, y).is_empty() {
                safe.push((x, y));
            }
        }
    }
    assert_eq!(safe.len(), 1);
}

#[test]
fn generate_without_draws_mines_the_first_squares() {
    let mut rng = StdRng::seed_from_u64(3);
    let board = generate_board_within(3, 3, 4, &mut rng, 0);
    check_generated(&board, 3, 3, 4);
    for y in 0..3 {
        for x in 0..3 {
            assert_eq!(board.cell(x, y).is_bomb(), y * 3 + x < 4);
        }
    }
    assert_eq!(board.cell(1, 1), CellState::Empty { count: 4, hidden: true });
}

#[test]
fn generate_with_few_draws_still_has_every_mine() {
    for seed in 0..50u64 {
        for trials in 0..6usize {
            let mut rng = StdRng::seed_from_u64(seed);
            let board = generate_board_within(4, 3, 7, &mut rng, trials);
            check_generated(&board, 4, 3, 7);
        }
    }
}

#[test]
fn generate_is_repeatable_for_one_seed() {
    let mut first = StdRng::seed_from_u64(42);
    let mut second = StdRng::seed_from_u64(42);
    let a = generate_board(6, 5, 9, &mut first);
    let b = generate_board(6, 5, 9, &mut second);
    for y in 0..5 {
        for x in 0..6 {
            assert_eq!(a.cell(x, y), b.cell(x, y));
        }
    }
}

#[test]
fn single_mine_falls_on_each_square_about_equally_often() {
    let mut hits = [[0usize; 2]; 2];
    let mut rng = StdRng::seed_from_u64(2024);
    let rounds = 4000;
    for _ in 0..rounds {
        let board = generate_board(2, 2, 1, &mut rng);
        assert_eq!(count_mines(&board), 1);
        for y in 0..2 {
            for x in 0..2 {
                if board.cell(x, y).is_bomb() {
                    hits[y][x] += 1;
                }
            }
        }
    }
    for y in 0..2 {
        for x in 0..2 {
            assert!(hits[y][x] > 800 && hits[y][x] < 1200);
        }
    }
}

#[test]
fn one_by_one_with_a_mine_is_rejected() {
    assert!(!is_valid_configuration(1, 1, 1));
    assert!(is_valid_configuration(1, 1, 0));
}

#[test]
fn configuration_limits() {
    assert!(!is_valid_configuration(0, 5, 0));
    assert!(!is_valid_configuration(5, 0, 0));
    assert!(!is_valid_configuration(0, 0, 0));
    assert!(is_valid_configuration(2, 2, 3));
    assert!(!is_valid_configuration(2, 2, 4));
    assert!(is_valid_configuration(80, 24, 192));
    assert!(is_valid_configuration(80, 24, 1919));
    assert!(!is_valid_configuration(80, 24, 1920));
    assert!(!is_valid_configuration(usize::MAX, 2, 0));
}

#[test]
fn open_cell_and_reveal_all() {
    let mut board = Board::blank(2, 2);
    assert!(board.place_mine(1, 0));
    board.count_neighbours();
    assert!(!board.open_cell(0, 0));
    assert_eq!(board.cell(0, 0), CellState::Empty { count: 1, hidden: false });
    assert_eq!(board.cell(1, 0), CellState::Bomb { hidden: true });
    assert!(board.open_cell(1, 0));
    assert_eq!(board.cell(1, 0), CellState::Bomb { hidden: false });
    assert!(board.cell(0, 1).is_hidden());
    board.reveal_all();
    for y in 0..2 {
        for x in 0..2 {
            assert!(!board.cell(x, y).is_hidden());
        }
    }
    assert_eq!(board.mines(), 1);
}

#[test]
fn row_text_draws_each_square() {
    let mut board = Board::blank(4, 2);
    assert!(board.place_mine(0, 0));
    assert!(board.place_mine(1, 0));
    board.count_neighbours();
    assert_eq!(board.row_text(0), vec!['*', '*', '*', '*']);
    board.open_cell(2, 0);
    board.open_cell(3, 0);
    board.open_cell(0, 1);
    assert_eq!(board.row_text(0), vec!['*', '*', '1', '.']);
    assert_eq!(board.row_text(1), vec!['2', '*', '*', '*']);
    board.reveal_all();
    assert_eq!(board.row_text(0), vec!['X', 'X', '1', '.']);
    assert_eq!(board.row_text(1), vec!['2', '2', '1', '.']);
}

#[test]
fn fill_mines_takes_the_first_free_squares() {
    let mut board = Board::blank(3, 2);
    assert!(board.place_mine(0, 0));
    assert!(board.place_mine(2, 0));
    assert_eq!(fill_mines(&mut board, 0), 0);
    assert_eq!(board.mines(), 2);
    assert_eq!(fill_mines(&mut board, 2), 2);
    assert_eq!(board.mines(), 4);
    assert!(board.cell(1, 0).is_bomb());
    assert!(board.cell(0, 1).is_bomb());
    assert_eq!(board.cell(1, 1), CellState::Empty { count: 0, hidden: true });
    assert_eq!(board.cell(2, 1), CellState::Empty { count: 0, hidden: true });
    assert_eq!(fill_mines(&mut board, 10), 2);
    assert_eq!(board.mines(), 6);
    assert_eq!(count_mines(&board), 6);
    assert_eq!(fill_mines(&mut board, 1), 0);
}
