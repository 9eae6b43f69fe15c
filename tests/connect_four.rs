use game_engine::connect_four::{
    ConnectFourMove, ConnectFourMoveGenerator, ConnectFourOracle, ConnectFourPosition,
    ConnectFourPositionEvaluator, Piece,
};
use game_engine::evaluation::{PositionEvaluation, PositionEvaluator};
use game_engine::game::{MoveGenerator, Oracle, Position};

fn oracle() -> ConnectFourOracle {
    ConnectFourOracle { position_evaluator: ConnectFourPositionEvaluator { player_piece: Piece::Phantom } }
}

fn drop_all(columns: &[usize]) -> ConnectFourPosition {
    let generator = ConnectFourMoveGenerator {};
    let mut game = ConnectFourPosition::new();
    for &column in columns {
        let m = *generator.get_moves(&game).iter().find(|m| m.column == column).unwrap();
        game = game.apply(&m);
    }
    game
}

#[test]
fn new_board_is_empty_with_red_to_move() {
    let game = ConnectFourPosition::new();
    assert!(game.board.iter().all(|&c| c == Piece::Empty));
    assert_eq!(game.last_player, 1);
    assert_eq!(oracle().next_player(&game), Some(0));
    assert!(!oracle().is_terminal(&game));
}

#[test]
fn pieces_fall_to_the_lowest_empty_cell() {
    let game = ConnectFourPosition::new();
    let once = game.apply(&ConnectFourMove { piece: Piece::Red, column: 2 });
    assert_eq!(once.board[17], Piece::Red);
    assert_eq!(once.last_player, 0);
    assert_eq!(game.board[17], Piece::Empty);
    let twice = once.apply(&ConnectFourMove { piece: Piece::Black, column: 2 });
    assert_eq!(twice.board[16], Piece::Black);
    assert_eq!(twice.board[17], Piece::Red);
    assert_eq!(twice.last_player, 1);
    assert_eq!(twice.board.iter().filter(|&&c| c != Piece::Empty).count(), 2);
}

#[test]
fn full_columns_offer_no_move() {
    let game = drop_all(&[0, 0, 0, 0, 0, 0]);
    assert_eq!(game.board[0], Piece::Black);
    let moves = ConnectFourMoveGenerator {}.get_moves(&game);
    let columns: Vec<usize> = moves.iter().map(|m| m.column).collect();
    assert_eq!(columns, vec![1, 2, 3, 4, 5, 6]);
    assert!(moves.iter().all(|m| m.piece == Piece::Red));
}

#[test]
fn turns_alternate_between_red_and_black() {
    let oracle = oracle();
    let generator = ConnectFourMoveGenerator {};
    let mut game = ConnectFourPosition::new();
    for column in [3, 3, 4, 2, 6, 0] {
        let side = oracle.next_player(&game).unwrap();
        let m = *generator.get_moves(&game).iter().find(|m| m.column == column).unwrap();
        assert_eq!(m.piece, if side == 0 { Piece::Red } else { Piece::Black });
        game = game.apply(&m);
        assert_eq!(oracle.next_player(&game), Some(1 - side));
    }
}

#[test]
fn vertical_line_wins_for_its_side() {
    // red stacks column 0, black plays column 1
    let game = drop_all(&[0, 1, 0, 1, 0, 1, 0]);
    let red = ConnectFourPositionEvaluator { player_piece: Piece::Red };
    let black = ConnectFourPositionEvaluator { player_piece: Piece::Black };
    assert_eq!(red.evaluate(&game), PositionEvaluation::Winning);
    assert_eq!(black.evaluate(&game), PositionEvaluation::Losing);
    assert!(oracle().is_terminal(&game));
}

#[test]
fn horizontal_line_wins_for_its_side() {
    let game = drop_all(&[0, 0, 1, 1, 2, 2, 3]);
    let red = ConnectFourPositionEvaluator { player_piece: Piece::Red };
    assert_eq!(red.evaluate(&game), PositionEvaluation::Winning);
    assert!(oracle().is_terminal(&game));
}

#[test]
fn diagonal_line_wins_for_its_side() {
    // red climbs from column 0 to column 3
    let game = drop_all(&[0, 1, 1, 2, 2, 3, 2, 3, 3, 6, 3]);
    let red = ConnectFourPositionEvaluator { player_piece: Piece::Red };
    assert_eq!(red.evaluate(&game), PositionEvaluation::Winning);
}

#[test]
fn open_position_is_an_even_estimate() {
    let game = drop_all(&[3, 3, 2, 4]);
    let red = ConnectFourPositionEvaluator { player_piece: Piece::Red };
    assert_eq!(red.evaluate(&game), PositionEvaluation::Estimate(0));
    assert!(!oracle().is_terminal(&game));
}

#[test]
fn no_move_is_offered_after_a_four_reached_in_play() {
    let game = drop_all(&[0, 1, 0, 1, 0, 1, 0]);
    assert!(oracle().is_terminal(&game));
    assert!(ConnectFourMoveGenerator {}.get_moves(&game).is_empty());
    let before = drop_all(&[0, 1, 0, 1, 0, 1]);
    assert!(!oracle().is_terminal(&before));
    assert_eq!(ConnectFourMoveGenerator {}.get_moves(&before).len(), 7);
}

#[test]
fn up_right_scan_does_not_wrap_into_the_next_column() {
    let mut game = ConnectFourPosition::new();
    // column 1, top to bottom
    let column_1 = [Piece::Red, Piece::Black, Piece::Black, Piece::Red, Piece::Black, Piece::Red];
    for (row, piece) in column_1.iter().enumerate() {
        game.board[6 + row] = *piece;
    }
    game.board[16] = Piece::Red;
    game.board[17] = Piece::Black;
    game.board[21] = Piece::Red;
    game.board[22] = Piece::Black;
    game.board[23] = Piece::Red;
    let red = ConnectFourPositionEvaluator { player_piece: Piece::Red };
    let black = ConnectFourPositionEvaluator { player_piece: Piece::Black };
    assert_eq!(red.evaluate(&game), PositionEvaluation::Estimate(0));
    assert_eq!(black.evaluate(&game), PositionEvaluation::Estimate(0));
    assert!(!oracle().is_terminal(&game));
}

#[test]
fn up_right_line_from_the_last_start_row_is_found() {
    // red climbs from the bottom of column 0 to row 2 of column 3
    let mut game = ConnectFourPosition::new();
    for index in [5, 10, 15, 20] {
        game.board[index] = Piece::Red;
    }
    for index in [11, 16, 17, 21, 22, 23] {
        game.board[index] = Piece::Black;
    }
    let red = ConnectFourPositionEvaluator { player_piece: Piece::Red };
    assert_eq!(red.evaluate(&game), PositionEvaluation::Winning);
}
