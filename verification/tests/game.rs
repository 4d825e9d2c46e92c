use minesweeper::board::Board;
use minesweeper::cell::CellState;
use minesweeper::game::{Direction, Game, Outcome};
use minesweeper::generate::generate_board;
use minesweeper::layout::{banner, centre, fit_extent, fit_mines};
use minesweeper::session::{handle, Input, Step};
use rand::rngs::StdRng;
use rand::SeedableRng;

fn board_with_mines(width: usize, height: usize, mines: &[(usize, usize)]) -> Board {
    let mut board = Board::blank(width, height);
    for &(x, y) in mines {
        assert!(board.place_mine(x, y));
    }
    board.count_neighbours();
    board
}

fn cells(game: &Game) -> Vec<Vec<CellState>> {
    let board = game.board();
    (0..board.height())
        .map(|y| (0..board.width()).map(|x| board.cell(x, y)).collect())
        .collect()
}

fn all_visible(game: &Game) -> bool {
    cells(game).iter().all(|row| row.iter().all(|cell| !cell.is_hidden()))
}

fn snapshot(game: &Game) -> (Vec<Vec<CellState>>, usize, (usize, usize), Outcome) {
    (cells(game), game.remaining(), game.cursor(), game.outcome())
}

fn two_by_two_scenario(board: Board) {
    assert!(board.cell(1, 1).is_bomb());
    let mut game = Game::new(board, (1, 1));
    assert_eq!(game.remaining(), 3);
    assert_eq!(game.outcome(), Outcome::InProgress);

    game.open(0, 0);
    assert_eq!(game.remaining(), 2);
    assert_eq!(game.outcome(), Outcome::InProgress);
    assert_eq!(game.board().cell(0, 0), CellState::Empty { count: 1, hidden: false });
    assert!(game.board().cell(1, 0).is_hidden());
    assert!(game.board().cell(0, 1).is_hidden());
    assert!(game.board().cell(1, 1).is_hidden());

    game.open(1, 1);
    assert_eq!(game.outcome(), Outcome::Lost);
    assert!(!game.board().cell(0, 0).is_hidden());
    assert!(!game.board().cell(0, 1).is_hidden());
    assert!(!game.board().cell(1, 0).is_hidden());
    assert!(!game.board().cell(1, 1).is_hidden());
    assert_eq!(game.board().cell(1, 1), CellState::Bomb { hidden: false });
}

#[test]
fn two_by_two_with_mine_placed_in_the_corner() {
    two_by_two_scenario(board_with_mines(2, 2, &[(1, 1)]));
}

#[test]
fn two_by_two_with_mine_from_a_seeded_source() {
    let mut found = false;
    for seed in 0..1000u64 {
        let mut rng = StdRng::seed_from_u64(seed);
        let board = generate_board(2, 2, 1, &mut rng);
        if board.cell(1, 1).is_bomb() {
            two_by_two_scenario(board);
            found = true;
            break;
        }
    }
    assert!(found);
}

#[test]
fn new_game_starts_in_progress() {
    let game = Game::new(board_with_mines(4, 3, &[(0, 0), (3, 2)]), (5, 7));
    assert_eq!(game.remaining(), 10);
    assert_eq!(game.cursor(), (0, 0));
    assert_eq!(game.outcome(), Outcome::InProgress);
    assert_eq!(game.origin(), (5, 7));
    assert!(cells(&game).iter().all(|row| row.iter().all(|cell| cell.is_hidden())));
}

#[test]
fn open_on_a_visible_square_changes_nothing() {
    let mut game = Game::new(board_with_mines(3, 3, &[(2, 2)]), (1, 1));
    game.open(0, 0);
    let before = snapshot(&game);
    assert_eq!(before.1, 7);
    game.open(0, 0);
    assert_eq!(snapshot(&game), before);
}

#[test]
fn open_outside_the_field_changes_nothing() {
    let mut game = Game::new(board_with_mines(3, 2, &[(1, 1)]), (1, 1));
    let before = snapshot(&game);
    game.open(3, 0);
    game.open(0, 2);
    game.open(usize::MAX, usize::MAX);
    assert_eq!(snapshot(&game), before);
}

#[test]
fn open_on_a_mine_loses_and_ends_the_game() {
    let mut game = Game::new(board_with_mines(3, 3, &[(1, 1), (0, 2)]), (1, 1));
    game.open(2, 0);
    assert_eq!(game.remaining(), 6);
    game.open(1, 1);
    assert_eq!(game.outcome(), Outcome::Lost);
    assert_eq!(game.remaining(), 6);
    assert!(all_visible(&game));
    let after = snapshot(&game);
    for y in 0..3 {
        for x in 0..3 {
            game.open(x, y);
            assert_eq!(snapshot(&game), after);
        }
    }
    game.open_at_cursor();
    game.move_cursor(Direction::South);
    game.set_cursor(2, 2);
    assert_eq!(snapshot(&game), after);
}

#[test]
fn opening_every_safe_square_wins() {
    let mines = [(0, 0), (2, 1)];
    let mut game = Game::new(board_with_mines(3, 2, &mines), (1, 1));
    let mut left = 4;
    assert_eq!(game.remaining(), left);
    for y in 0..2 {
        for x in 0..3 {
            if mines.contains(&(x, y)) {
                continue;
            }
            assert_eq!(game.outcome(), Outcome::InProgress);
            game.open(x, y);
            left -= 1;
            assert_eq!(game.remaining(), left);
            if left > 0 {
                assert!(game.board().cell(0, 0).is_hidden());
            }
        }
    }
    assert_eq!(game.remaining(), 0);
    assert_eq!(game.outcome(), Outcome::Won);
    assert!(all_visible(&game));
    assert_eq!(game.board().cell(0, 0), CellState::Bomb { hidden: false });
    let after = snapshot(&game);
    game.open(0, 0);
    assert_eq!(snapshot(&game), after);
}

#[test]
fn opening_a_zero_square_does_not_spread() {
    let mut game = Game::new(board_with_mines(4, 4, &[(3, 3)]), (1, 1));
    game.open(0, 0);
    assert_eq!(game.board().cell(0, 0), CellState::Empty { count: 0, hidden: false });
    assert_eq!(game.remaining(), 14);
    for y in 0..4 {
        for x in 0..4 {
            if (x, y) != (0, 0) {
                assert!(game.board().cell(x, y).is_hidden());
            }
        }
    }
}

#[test]
fn cursor_steps_in_eight_directions() {
    let mut game = Game::new(board_with_mines(3, 3, &[(0, 0)]), (1, 1));
    game.set_cursor(1, 1);
    let steps = [
        (Direction::North, (1, 0)),
        (Direction::South, (1, 2)),
        (Direction::East, (2, 1)),
        (Direction::West, (0, 1)),
        (Direction::NorthEast, (2, 0)),
        (Direction::NorthWest, (0, 0)),
        (Direction::SouthEast, (2, 2)),
        (Direction::SouthWest, (0, 2)),
    ];
    for &(direction, expected) in steps.iter() {
        game.set_cursor(1, 1);
        game.move_cursor(direction);
        assert_eq!(game.cursor(), expected);
    }
    assert_eq!(game.remaining(), 8);
    assert!(cells(&game).iter().all(|row| row.iter().all(|cell| cell.is_hidden())));
}

#[test]
fn cursor_never_leaves_the_field() {
    let directions = [
        Direction::North,
        Direction::South,
        Direction::East,
        Direction::West,
        Direction::NorthEast,
        Direction::NorthWest,
        Direction::SouthEast,
        Direction::SouthWest,
    ];
    let mut game = Game::new(board_with_mines(3, 2, &[(1, 1)]), (1, 1));
    for start_y in 0..2 {
        for start_x in 0..3 {
            for &first in directions.iter() {
                for &second in directions.iter() {
                    game.set_cursor(start_x, start_y);
                    game.move_cursor(first);
                    game.move_cursor(second);
                    let (x, y) = game.cursor();
                    assert!(x < 3 && y < 2);
                }
            }
        }
    }
}

#[test]
fn a_step_over_the_edge_is_not_taken() {
    let mut game = Game::new(board_with_mines(3, 2, &[(1, 1)]), (1, 1));
    game.move_cursor(Direction::North);
    assert_eq!(game.cursor(), (0, 0));
    game.move_cursor(Direction::West);
    assert_eq!(game.cursor(), (0, 0));
    game.move_cursor(Direction::NorthEast);
    assert_eq!(game.cursor(), (0, 0));
    game.move_cursor(Direction::SouthWest);
    assert_eq!(game.cursor(), (0, 0));
    game.set_cursor(2, 1);
    game.move_cursor(Direction::SouthEast);
    assert_eq!(game.cursor(), (2, 1));
    game.move_cursor(Direction::East);
    assert_eq!(game.cursor(), (2, 1));
    game.move_cursor(Direction::South);
    assert_eq!(game.cursor(), (2, 1));
    game.move_cursor(Direction::NorthWest);
    assert_eq!(game.cursor(), (1, 0));
}

#[test]
fn set_cursor_ignores_positions_off_the_field() {
    let mut game = Game::new(board_with_mines(3, 2, &[(1, 1)]), (1, 1));
    game.set_cursor(2, 1);
    assert_eq!(game.cursor(), (2, 1));
    game.set_cursor(3, 1);
    assert_eq!(game.cursor(), (2, 1));
    game.set_cursor(0, 2);
    assert_eq!(game.cursor(), (2, 1));
    game.set_cursor(0, 0);
    assert_eq!(game.cursor(), (0, 0));
}

#[test]
fn open_at_cursor_opens_the_square_under_it() {
    let mut game = Game::new(board_with_mines(3, 2, &[(1, 1)]), (1, 1));
    game.set_cursor(2, 0);
    game.open_at_cursor();
    assert_eq!(game.board().cell(2, 0), CellState::Empty { count: 1, hidden: false });
    assert_eq!(game.remaining(), 4);
}

#[test]
fn locate_maps_screen_positions_to_squares() {
    let game = Game::new(board_with_mines(3, 2, &[(1, 1)]), (10, 20));
    assert_eq!(game.locate(10, 20), Some((0, 0)));
    assert_eq!(game.locate(12, 21), Some((2, 1)));
    assert_eq!(game.locate(13, 21), None);
    assert_eq!(game.locate(12, 22), None);
    assert_eq!(game.locate(9, 20), None);
    assert_eq!(game.locate(10, 19), None);
}

#[test]
fn press_moves_the_cursor_and_opens() {
    let mut game = Game::new(board_with_mines(3, 2, &[(1, 1)]), (10, 20));
    game.press(12, 20);
    assert_eq!(game.cursor(), (2, 0));
    assert_eq!(game.board().cell(2, 0), CellState::Empty { count: 1, hidden: false });
    assert_eq!(game.remaining(), 4);
    let before = snapshot(&game);
    game.press(13, 20);
    game.press(1, 1);
    assert_eq!(snapshot(&game), before);
}

#[test]
fn handle_follows_the_inputs() {
    let mut game = Game::new(board_with_mines(3, 2, &[(1, 1)]), (10, 20));
    assert_eq!(handle(&mut game, Input::Other), Step::Continue);
    assert_eq!(handle(&mut game, Input::Move(Direction::East)), Step::Continue);
    assert_eq!(game.cursor(), (1, 0));
    assert_eq!(handle(&mut game, Input::Activate), Step::Continue);
    assert_eq!(game.board().cell(1, 0), CellState::Empty { count: 1, hidden: false });
    assert_eq!(game.remaining(), 4);
    assert_eq!(handle(&mut game, Input::Press(50, 50)), Step::Continue);
    assert_eq!(game.cursor(), (1, 0));
    assert_eq!(game.remaining(), 4);
    let before = snapshot(&game);
    assert_eq!(handle(&mut game, Input::Quit), Step::Stop);
    assert_eq!(handle(&mut game, Input::End), Step::Stop);
    assert_eq!(snapshot(&game), before);
    assert_eq!(handle(&mut game, Input::Press(11, 21)), Step::Finished);
    assert_eq!(game.cursor(), (1, 1));
    assert_eq!(game.outcome(), Outcome::Lost);
    assert!(all_visible(&game));
    assert_eq!(handle(&mut game, Input::Activate), Step::Finished);
}

#[test]
fn handle_reports_a_win() {
    let mut game = Game::new(board_with_mines(2, 1, &[(1, 0)]), (1, 1));
    assert_eq!(handle(&mut game, Input::Activate), Step::Finished);
    assert_eq!(game.outcome(), Outcome::Won);
    assert_eq!(game.remaining(), 0);
    assert!(all_visible(&game));
}

#[test]
fn extents_are_fitted_to_the_screen() {
    assert_eq!(fit_extent(None, 80), 78);
    assert_eq!(fit_extent(Some(10), 80), 10);
    assert_eq!(fit_extent(Some(0), 80), 1);
    assert_eq!(fit_extent(Some(500), 80), 78);
    assert_eq!(fit_extent(Some(78), 80), 78);
    assert_eq!(fit_extent(None, 3), 1);
    assert_eq!(fit_extent(Some(7), 3), 1);
}

#[test]
fn mines_are_fitted_to_the_field() {
    assert_eq!(fit_mines(None, 78, 22), 171);
    assert_eq!(fit_mines(None, 3, 3), 0);
    assert_eq!(fit_mines(Some(5), 3, 3), 5);
    assert_eq!(fit_mines(Some(8), 3, 3), 8);
    assert_eq!(fit_mines(Some(9), 3, 3), 8);
    assert_eq!(fit_mines(Some(1), 1, 1), 0);
    assert_eq!(fit_mines(Some(0), 4, 4), 0);
}

#[test]
fn centre_of_the_screen() {
    assert_eq!(centre(80, 78), 2);
    assert_eq!(centre(80, 17), 32);
    assert_eq!(centre(24, 4), 11);
    assert_eq!(centre(10, 10), 1);
    assert_eq!(centre(11, 10), 1);
}

#[test]
fn banner_names_the_outcome() {
    assert_eq!(banner(Outcome::InProgress), None);
    assert_eq!(
        banner(Outcome::Lost),
        Some(["                 ", "      Bomb!      ", " [Press any key] ", "                 "])
    );
    assert_eq!(
        banner(Outcome::Won),
        Some(["                 ", "     Clear!      ", " [Press any key] ", "                 "])
    );
}
