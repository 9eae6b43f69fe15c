use game_engine::connect_four::{
    ConnectFourMoveGenerator, ConnectFourOracle, ConnectFourPosition,
    ConnectFourPositionEvaluator, Piece,
};
use game_engine::engine::GameEngine;
use game_engine::game::{MoveGenerator, Oracle};
use game_engine::max_strategy::MaxMoveStrategy;
use game_engine::minimax_strategy::MinimaxMoveStrategy;
use game_engine::player::DefaultPlayer;
use game_engine::strategy::{MoveStrategy, SearchError};

fn oracle() -> ConnectFourOracle {
    ConnectFourOracle { position_evaluator: ConnectFourPositionEvaluator { player_piece: Piece::Phantom } }
}

/// A board whose pieces float: the top cell of every column but the last
/// is taken while the cells below stay empty. Column 6 is taken from the
/// second cell down, or wholly when `fill_last` holds.
fn floating_board(fill_last: bool) -> ConnectFourPosition {
    let mut game = ConnectFourPosition::new();
    let tops = [Piece::Red, Piece::Black, Piece::Red, Piece::Black, Piece::Red, Piece::Black];
    for (column, piece) in tops.iter().enumerate() {
        game.board[column * 6] = *piece;
    }
    let last = [Piece::Red, Piece::Black, Piece::Red, Piece::Black, Piece::Red];
    for (row, piece) in last.iter().enumerate() {
        game.board[37 + row] = *piece;
    }
    if fill_last {
        game.board[36] = Piece::Red;
    }
    game
}

#[test]
fn empty_move_list_at_a_live_position_is_fatal() {
    let game = floating_board(true);
    assert!(!oracle().is_terminal(&game));
    assert!(ConnectFourMoveGenerator {}.get_moves(&game).is_empty());
    let minimax = MinimaxMoveStrategy::new(
        ConnectFourPositionEvaluator { player_piece: Piece::Red },
        ConnectFourMoveGenerator {},
        oracle(),
    );
    assert_eq!(minimax.choose_move(&game).err(), Some(SearchError::NoLegalMoves));
    let max = MaxMoveStrategy::new(
        ConnectFourPositionEvaluator { player_piece: Piece::Red },
        ConnectFourMoveGenerator {},
        oracle(),
    );
    assert_eq!(max.choose_move(&game).err(), Some(SearchError::NoLegalMoves));
}

#[test]
fn a_fault_one_ply_down_aborts_the_search() {
    let game = floating_board(false);
    assert!(!oracle().is_terminal(&game));
    let moves = ConnectFourMoveGenerator {}.get_moves(&game);
    assert_eq!(moves.len(), 1);
    assert_eq!(moves[0].column, 6);
    let minimax = MinimaxMoveStrategy::new(
        ConnectFourPositionEvaluator { player_piece: Piece::Red },
        ConnectFourMoveGenerator {},
        oracle(),
    );
    assert_eq!(minimax.choose_move(&game).err(), Some(SearchError::NoLegalMoves));
    let max = MaxMoveStrategy::new(
        ConnectFourPositionEvaluator { player_piece: Piece::Red },
        ConnectFourMoveGenerator {},
        oracle(),
    );
    assert_eq!(max.choose_move(&game).err(), Some(SearchError::NoLegalMoves));
}

#[test]
fn engine_surfaces_a_failed_search() {
    let start = floating_board(true);
    let player = |piece: Piece| {
        DefaultPlayer::new(MinimaxMoveStrategy::new(
            ConnectFourPositionEvaluator { player_piece: piece },
            ConnectFourMoveGenerator {},
            oracle(),
        ))
    };
    let mut engine = GameEngine::new(start, player(Piece::Red), player(Piece::Black), oracle());
    assert_eq!(engine.run(), Err(SearchError::NoLegalMoves));
    assert!(engine.moves.is_empty());
    assert_eq!(engine.current_game_state.board, start.board);
}
