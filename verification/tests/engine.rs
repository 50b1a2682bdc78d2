use fox_mines::minesweeper::{Difficulty, DifficultyValues, GameState, Minesweeper, SetFlagMode, Tile};

// A 5x5 board with mines at 20 and 22 (bottom row), started by digging
// cell 2: the flood opens rows 0..3 plus the zero pocket {19, 24} and
// the numbered ring {15, 16, 17, 18, 23}; only {20, 21, 22} stay shut.
fn corner_board() -> Minesweeper {
    let mut game = Minesweeper::new(5, 5, 2);
    let ok = game.start_with_mines(&vec![20, 22], 2);
    assert!(ok);
    game
}

// A 5x5 board with mines at 16 and 18: the flood from cell 2 opens rows
// 0..2 and leaves rows 3 and 4 shut behind the numbered ring.
fn pocket_board() -> Minesweeper {
    let mut game = Minesweeper::new(5, 5, 2);
    let ok = game.start_with_mines(&vec![16, 18], 2);
    assert!(ok);
    game
}

#[test]
fn bomb_count_is_clamped_to_capacity() {
    let game = Minesweeper::new(8, 8, 10);
    assert_eq!(game.bomb_count, 10);
    let game = Minesweeper::new(4, 3, 100);
    assert_eq!(game.bomb_count, 3);
    let game = Minesweeper::new(3, 3, 5);
    assert_eq!(game.bomb_count, 0);
}

#[test]
fn first_dig_reserves_safe_zone() {
    // 8x8, requested 10 bombs: used = min(10, 55) = 10. Digging corner 0
    // reserves {0, 1, 8, 9}; the 10 mines come from the other 60 cells.
    let mut game = Minesweeper::new(8, 8, 10);
    assert!(game.dig(0));
    assert_eq!(game.bombs.len(), 10);
    for (k, &b) in game.bombs.iter().enumerate() {
        assert!(b < 64);
        assert!(b != 0 && b != 1 && b != 8 && b != 9);
        for (k2, &b2) in game.bombs.iter().enumerate() {
            assert!(k == k2 || b != b2);
        }
    }
    assert!(matches!(game.board[0], Tile::Revealed(_)));
    assert!(game.state != GameState::Lose && game.state != GameState::Prelude);
}

#[test]
fn neighbour_counts_match_adjacent_mines() {
    let game = corner_board();
    let expected: [u8; 25] = [
        0, 0, 0, 0, 0,
        0, 0, 0, 0, 0,
        0, 0, 0, 0, 0,
        1, 2, 1, 1, 0,
        0, 2, 0, 1, 0,
    ];
    for i in 0..25 {
        assert_eq!(game.neighbour_count[i], expected[i], "count at {}", i);
    }
}

#[test]
fn flood_fill_opens_region_and_ring_exactly() {
    let game = corner_board();
    // the connected zero region around cell 2, plus its numbered ring
    for i in 0..15 {
        assert!(matches!(game.board[i], Tile::Revealed(_)), "cell {}", i);
    }
    assert_eq!(game.board[15], Tile::Revealed(1));
    assert_eq!(game.board[16], Tile::Revealed(2));
    assert_eq!(game.board[17], Tile::Revealed(1));
    assert_eq!(game.board[18], Tile::Revealed(1));
    assert_eq!(game.board[19], Tile::Revealed(0));
    assert_eq!(game.board[23], Tile::Revealed(1));
    assert_eq!(game.board[24], Tile::Revealed(0));
    // nothing beyond the ring opened: 21 touches no zero cell
    assert_eq!(game.board[20], Tile::Unopened);
    assert_eq!(game.board[21], Tile::Unopened);
    assert_eq!(game.board[22], Tile::Unopened);
    assert_eq!(game.state, GameState::Playing);
}

#[test]
fn dig_refuses_flagged_and_revealed_tiles() {
    let mut game = corner_board();
    let before = game.board.clone();
    // already revealed
    assert!(!game.dig(15));
    assert_eq!(game.board, before);
    // flagged
    assert!(game.set_flag(SetFlagMode::Flag, 20));
    let before = game.board.clone();
    assert!(!game.dig(20));
    assert_eq!(game.board, before);
    // out of range
    assert!(!game.dig(25));
}

#[test]
fn set_flag_plants_only_on_unopened_and_lifts_only_flags() {
    let mut game = Minesweeper::new(5, 5, 2);
    assert!(game.set_flag(SetFlagMode::Flag, 5));
    assert_eq!(game.board[5], Tile::Flagged);
    assert!(!game.set_flag(SetFlagMode::Flag, 5));
    assert!(!game.set_flag(SetFlagMode::Remove, 6));
    assert!(game.set_flag(SetFlagMode::Remove, 5));
    assert_eq!(game.board[5], Tile::Unopened);
    assert!(!game.set_flag(SetFlagMode::Remove, 5));
    assert!(!game.set_flag(SetFlagMode::Flag, 25));
    // a revealed tile can be neither flagged nor unflagged
    let mut game = corner_board();
    assert!(!game.set_flag(SetFlagMode::Flag, 10));
    assert!(!game.set_flag(SetFlagMode::Remove, 10));
}

#[test]
fn chord_is_a_no_op_unless_flags_match_the_number() {
    let mut game = pocket_board();
    assert!(game.dig(17));
    assert_eq!(game.board[17], Tile::Revealed(2));
    // one flag against a count of two: nothing may happen
    assert!(game.set_flag(SetFlagMode::Flag, 16));
    let before = game.board.clone();
    assert_eq!(game.chord(17), None);
    assert_eq!(game.board, before);
    // chord on an unopened or out-of-range tile: nothing either
    assert_eq!(game.chord(21), None);
    assert_eq!(game.chord(25), None);
    assert_eq!(game.board, before);
}

#[test]
fn chord_reveals_exactly_the_unflagged_neighbours() {
    // a Revealed(2) tile with exactly 2 flagged neighbours and 3
    // unopened unflagged neighbours: the chord opens exactly those 3
    let mut game = pocket_board();
    assert!(game.dig(17));
    assert_eq!(game.board[17], Tile::Revealed(2));
    assert!(game.set_flag(SetFlagMode::Flag, 16));
    assert!(game.set_flag(SetFlagMode::Flag, 18));
    assert_eq!(game.chord(17), None);
    assert_eq!(game.board[21], Tile::Revealed(1));
    assert_eq!(game.board[22], Tile::Revealed(2));
    assert_eq!(game.board[23], Tile::Revealed(1));
    // the flags stayed, and nothing else opened
    assert_eq!(game.board[16], Tile::Flagged);
    assert_eq!(game.board[18], Tile::Flagged);
    assert_eq!(game.board[15], Tile::Unopened);
    assert_eq!(game.board[19], Tile::Unopened);
    assert_eq!(game.board[20], Tile::Unopened);
    assert_eq!(game.board[24], Tile::Unopened);
    assert_eq!(game.state, GameState::Playing);
}

#[test]
fn chord_through_a_wrong_flag_hits_the_mine() {
    let mut game = corner_board();
    // cell 16 shows 2; flag 20 (a mine) and 21 (not one): the third
    // unopened neighbour, 22, is a mine and the chord sets it off
    assert!(game.set_flag(SetFlagMode::Flag, 20));
    assert!(game.set_flag(SetFlagMode::Flag, 21));
    let hit = game.chord(16);
    assert_eq!(hit, Some(22));
    assert_eq!(game.state, GameState::Lose);
    assert_eq!(game.losing_tile, Some(22));
    assert!(matches!(game.board[22], Tile::Revealed(_)));
    // the flagged mine keeps its flag even after the loss
    assert_eq!(game.board[20], Tile::Flagged);
}

#[test]
fn win_exactly_when_every_safe_tile_is_open() {
    let mut game = corner_board();
    assert_eq!(game.state, GameState::Playing);
    // the one unopened mine-free cell left is 21
    assert!(game.dig(21));
    assert_eq!(game.state, GameState::Win);
    // the mines never opened
    assert_eq!(game.board[20], Tile::Unopened);
    assert_eq!(game.board[22], Tile::Unopened);
    // and a finished game accepts no further digs
    assert!(!game.dig(20));
}

#[test]
fn digging_a_mine_loses_and_shows_every_mine() {
    let mut game = corner_board();
    assert!(game.dig(22));
    assert_eq!(game.state, GameState::Lose);
    assert_eq!(game.losing_tile, Some(22));
    assert!(matches!(game.board[20], Tile::Revealed(_)));
    assert!(matches!(game.board[22], Tile::Revealed(_)));
    // mine-free tiles are exactly as the flood left them
    assert_eq!(game.board[21], Tile::Unopened);
}

#[test]
fn diggable_is_a_pure_predicate() {
    let mut game = Minesweeper::new(5, 5, 2);
    assert!(game.diggable(0));
    assert!(!game.diggable(25));
    game.set_flag(SetFlagMode::Flag, 0);
    assert!(!game.diggable(0));
    let game = corner_board();
    assert!(!game.diggable(2));
    assert!(game.diggable(21));
}

#[test]
fn flags_left_counts_down_and_goes_unknown_when_overflagged() {
    let mut game = Minesweeper::new(5, 5, 3);
    assert_eq!(game.flags_left(), Some(3));
    game.set_flag(SetFlagMode::Flag, 0);
    game.set_flag(SetFlagMode::Flag, 1);
    assert_eq!(game.flags_left(), Some(1));
    game.set_flag(SetFlagMode::Flag, 2);
    assert_eq!(game.flags_left(), Some(0));
    game.set_flag(SetFlagMode::Flag, 3);
    assert_eq!(game.flags_left(), None);
    game.set_flag(SetFlagMode::Remove, 3);
    assert_eq!(game.flags_left(), Some(0));
}

#[test]
fn flagging_works_before_the_first_dig() {
    let mut game = Minesweeper::new(8, 8, 10);
    assert_eq!(game.state, GameState::Prelude);
    assert!(game.set_flag(SetFlagMode::Flag, 12));
    // the flagged cell may still end up mined; the first dig must
    // nevertheless succeed and leave the flag alone
    assert!(game.dig(0));
    assert_eq!(game.board[12], Tile::Flagged);
}

#[test]
fn start_with_mines_rejects_unlawful_layouts() {
    // wrong mine count
    let mut game = Minesweeper::new(5, 5, 2);
    assert!(!game.start_with_mines(&vec![20], 2));
    assert_eq!(game.state, GameState::Prelude);
    // a mine inside the safe zone
    assert!(!game.start_with_mines(&vec![1, 20], 2));
    // a duplicate
    assert!(!game.start_with_mines(&vec![20, 20], 2));
    // out of range
    assert!(!game.start_with_mines(&vec![20, 25], 2));
    // and a second start once the game began
    assert!(game.start_with_mines(&vec![20, 22], 2));
    assert!(!game.start_with_mines(&vec![20, 22], 2));
}

#[test]
fn difficulty_presets_and_custom_clamping() {
    assert_eq!(
        Difficulty::Easy.values(),
        DifficultyValues { width: 9, height: 9, bomb_count: 10 }
    );
    assert_eq!(
        Difficulty::Normal.values(),
        DifficultyValues { width: 16, height: 16, bomb_count: 40 }
    );
    assert_eq!(
        Difficulty::Hard.values(),
        DifficultyValues { width: 30, height: 16, bomb_count: 99 }
    );
    let v = Difficulty::Custom(DifficultyValues { width: 0, height: 50000, bomb_count: 7 })
        .values();
    assert_eq!(v, DifficultyValues { width: 4, height: 10000, bomb_count: 7 });
}

#[test]
fn turn_counter_counts_successful_digs() {
    let mut game = corner_board();
    assert_eq!(game.turns, 1);
    assert!(game.dig(21));
    assert_eq!(game.turns, 2);
    assert!(!game.dig(21));
    assert_eq!(game.turns, 2);
}
