use tictactoe::board::{Board, Player, Position};

fn sample_board() -> Board {
    let mut b = Board::default();
    b.set_cell(&Position::new(0, 1), Player::X);
    b.set_cell(&Position::new(1, 0), Player::X);
    b.set_cell(&Position::new(2, 2), Player::X);
    b.set_cell(&Position::new(2, 0), Player::O);
    b.set_cell(&Position::new(1, 1), Player::O);
    b.set_cell(&Position::new(0, 2), Player::O);
    b
}

#[test]
fn board_default() {
    let b = Board::default();
    assert_eq!(b.bitboards(), [0, 0]);
}

#[test]
fn board_board_default() {
    let b = Board::default();
    assert_eq!(b.bitboards(), [0, 0]);
}

#[test]
fn set_cell() {
    let mut b = Board::default();
    b.set_cell(&Position::new(1, 1), Player::X);
    assert_eq!(b.bitboards()[Player::X as usize], 16);
}

#[test]
fn board_set_cell() {
    let mut b = Board::default();
    b.set_cell(&Position { x: 1, y: 1 }, Player::X);
    assert_eq!(b.bitboards()[Player::X as usize], 16);
}

#[test]
fn get_cell() {
    let b = Board::from_bitboards([1, 0]).unwrap();
    assert_eq!(b.get_cell(&Position::new(0, 0)), Some(Player::X));
}

#[test]
fn board_get_cell() {
    let b = Board::from_bitboards([1, 0]).unwrap();
    assert_eq!(b.get_cell(&Position { x: 0, y: 0 }), Some(Player::X));
}

#[test]
fn set_get_cell() {
    let mut b = Board::default();
    let player = Player::X;
    let pos = Position::new(1, 1);
    b.set_cell(&pos, player);
    assert_eq!(b.get_cell(&pos), Some(player));
}

#[test]
fn board_set_get_cell() {
    let mut b = Board::default();
    let player = Player::X;
    let pos = Position { x: 1, y: 1 };
    b.set_cell(&pos, player);
    assert_eq!(b.get_cell(&pos), Some(player));
}

#[test]
fn win() {
    let b = sample_board();
    assert_eq!(b.winner(), Some(Player::O));
}

#[test]
fn board_win() {
    let mut b = Board::default();
    b.set_cell(&Position { x: 0, y: 1 }, Player::X);
    b.set_cell(&Position { x: 1, y: 0 }, Player::X);
    b.set_cell(&Position { x: 2, y: 2 }, Player::X);
    b.set_cell(&Position { x: 2, y: 0 }, Player::O);
    b.set_cell(&Position { x: 1, y: 1 }, Player::O);
    b.set_cell(&Position { x: 0, y: 2 }, Player::O);
    assert_eq!(b.winner(), Some(Player::O));
}

#[test]
fn reset_other_player() {
    let mut b = Board::default();
    let pos = Position::new(1, 1);
    b.set_cell(&pos, Player::X);
    b.set_cell(&pos, Player::O);
    assert_eq!(b.get_cell(&pos), Some(Player::O));
}

#[test]
fn board_reset_other_player() {
    let mut b = Board::default();
    let pos = Position { x: 1, y: 1 };
    b.set_cell(&pos, Player::X);
    b.set_cell(&pos, Player::O);
    assert_eq!(b.get_cell(&pos), Some(Player::O));
}

#[test]
fn test_count() {
    let b = sample_board();
    assert_eq!(b.count_player(Player::X), 3);
    assert_eq!(b.count_player(Player::O), 3);
}

#[test]
fn test_valid_moves() {
    let b = sample_board();
    assert!(b.valid_moves().contains(&Position::new(0, 0)));
    assert_eq!(b.valid_moves().len(), 3);
}

#[test]
fn other_player_swaps() {
    assert_eq!(Player::X.other_player(), Player::O);
    assert_eq!(Player::O.other_player(), Player::X);
}

#[test]
fn player_symbols() {
    assert_eq!(Player::X.symbol(), "X");
    assert_eq!(Player::O.symbol(), "O");
}

#[test]
fn position_validity() {
    assert!(Position::new(2, 2).is_valid());
    assert!(!Position::new(3, 0).is_valid());
    assert!(!Position::new(0, 3).is_valid());
}

#[test]
fn set_then_get_every_cell() {
    for y in 0..3u8 {
        for x in 0..3u8 {
            let pos = Position::new(x, y);
            let mut b = Board::default();
            b.set_cell(&pos, Player::X);
            assert_eq!(b.get_cell(&pos), Some(Player::X));
            b.set_cell(&pos, Player::O);
            assert_eq!(b.get_cell(&pos), Some(Player::O));
            let bits = b.bitboards();
            assert_eq!(bits[0] & bits[1], 0);
            assert_eq!(bits[0], 0);
            assert_eq!(bits[1], 1 << (y * 3 + x));
        }
    }
}

#[test]
fn valid_moves_of_empty_board() {
    let b = Board::default();
    let moves = b.valid_moves();
    assert_eq!(moves.len(), 9);
    assert_eq!(moves[0], Position::new(0, 0));
    assert_eq!(moves[1], Position::new(1, 0));
    assert_eq!(moves[3], Position::new(0, 1));
    assert_eq!(moves[8], Position::new(2, 2));
    assert!(!b.is_full());
}

#[test]
fn valid_moves_of_full_board() {
    let mut b = Board::default();
    for y in 0..3u8 {
        for x in 0..3u8 {
            let p = if (x + y) % 2 == 0 { Player::X } else { Player::O };
            b.set_cell(&Position::new(x, y), p);
        }
    }
    assert!(b.valid_moves().is_empty());
    assert!(b.is_full());
    assert_eq!(b.count_player(Player::X), 5);
    assert_eq!(b.count_player(Player::O), 4);
}

#[test]
fn valid_moves_count_matches_marks() {
    let b = sample_board();
    let taken = b.count_player(Player::X) + b.count_player(Player::O);
    assert_eq!(b.valid_moves().len() as u32, 9 - taken);
    assert_eq!(
        b.valid_moves(),
        vec![Position::new(0, 0), Position::new(2, 1), Position::new(1, 2)]
    );
}

#[test]
fn no_winner_on_empty_board() {
    assert_eq!(Board::default().winner(), None);
}

#[test]
fn no_winner_with_two_marks_each() {
    let mut b = Board::default();
    b.set_cell(&Position::new(0, 0), Player::X);
    b.set_cell(&Position::new(1, 0), Player::X);
    b.set_cell(&Position::new(0, 1), Player::O);
    b.set_cell(&Position::new(1, 1), Player::O);
    assert_eq!(b.winner(), None);
}

#[test]
fn winner_on_each_line() {
    let lines: [[(u8, u8); 3]; 8] = [
        [(0, 0), (0, 1), (0, 2)],
        [(1, 0), (1, 1), (1, 2)],
        [(2, 0), (2, 1), (2, 2)],
        [(0, 0), (1, 0), (2, 0)],
        [(0, 1), (1, 1), (2, 1)],
        [(0, 2), (1, 2), (2, 2)],
        [(0, 0), (1, 1), (2, 2)],
        [(2, 0), (1, 1), (0, 2)],
    ];
    for line in lines.iter() {
        let mut b = Board::default();
        for &(x, y) in line.iter() {
            b.set_cell(&Position::new(x, y), Player::X);
        }
        assert_eq!(b.winner(), Some(Player::X));
    }
}

#[test]
fn three_marks_off_a_line_do_not_win() {
    let mut b = Board::default();
    b.set_cell(&Position::new(0, 0), Player::O);
    b.set_cell(&Position::new(1, 0), Player::O);
    b.set_cell(&Position::new(0, 1), Player::O);
    assert_eq!(b.winner(), None);
}

#[test]
fn from_bitboards_rejects_overlap_and_stray_bits() {
    assert!(Board::from_bitboards([1, 1]).is_none());
    assert!(Board::from_bitboards([512, 0]).is_none());
    assert!(Board::from_bitboards([0, 1024]).is_none());
    let b = Board::from_bitboards([0b100, 0b1000]).unwrap();
    assert_eq!(b.get_cell(&Position::new(2, 0)), Some(Player::X));
    assert_eq!(b.get_cell(&Position::new(0, 1)), Some(Player::O));
    assert_eq!(b.get_cell(&Position::new(1, 1)), None);
}
