use game_engine::engine::GameEngine;
use game_engine::evaluation::{PositionEvaluation, PositionEvaluator};
use game_engine::game::{MoveGenerator, Oracle, Position};
use game_engine::max_strategy::MaxMoveStrategy;
use game_engine::minimax_strategy::MinimaxMoveStrategy;
use game_engine::player::{DefaultPlayer, Player};
use game_engine::strategy::{MoveStrategy, SearchError};
use game_engine::tictactoe::{
    Piece, TicTacToeMove, TicTacToeMoveGenerator, TicTacToeOracle, TicTacToePosition,
    TicTacToePositionEvaluator,
};

fn board_of(cells: &str) -> [Option<Piece>; 9] {
    let mut board = [None; 9];
    for (i, c) in cells.chars().enumerate() {
        board[i] = match c {
            'X' => Some(Piece::X),
            'O' => Some(Piece::O),
            _ => None,
        };
    }
    board
}

fn minimax(piece: Piece) -> MinimaxMoveStrategy<
    TicTacToePosition,
    TicTacToeMove,
    TicTacToePositionEvaluator,
    TicTacToeMoveGenerator,
    TicTacToeOracle,
> {
    MinimaxMoveStrategy::new(
        TicTacToePositionEvaluator { player_piece: piece },
        TicTacToeMoveGenerator {},
        TicTacToeOracle {},
    )
}

fn max(piece: Piece) -> MaxMoveStrategy<
    TicTacToePosition,
    TicTacToeMove,
    TicTacToePositionEvaluator,
    TicTacToeMoveGenerator,
    TicTacToeOracle,
> {
    MaxMoveStrategy::new(
        TicTacToePositionEvaluator { player_piece: piece },
        TicTacToeMoveGenerator {},
        TicTacToeOracle {},
    )
}

fn has_line(board: &[Option<Piece>; 9], piece: Piece) -> bool {
    let lines = [
        [0, 1, 2],
        [3, 4, 5],
        [6, 7, 8],
        [0, 3, 6],
        [1, 4, 7],
        [2, 5, 8],
        [0, 4, 8],
        [2, 4, 6],
    ];
    lines.iter().any(|l| l.iter().all(|&i| board[i] == Some(piece)))
}

#[test]
pub fn test_apply() {
    let game = TicTacToePosition {
        board: [None; 9],
        last_player: 1,
    };

    let new_game = game.apply(&TicTacToeMove { position: 0, piece: Piece::X });

    assert!(new_game.board[0].is_some());
    assert_eq!(new_game.board[0].unwrap(), Piece::X);
    assert!(new_game.board[1].is_none());
    assert!(new_game.board[2].is_none());
    assert!(new_game.board[3].is_none());
    assert!(new_game.board[4].is_none());
    assert!(new_game.board[5].is_none());
    assert!(new_game.board[6].is_none());
    assert!(new_game.board[7].is_none());
    assert!(new_game.board[8].is_none());
}

#[test]
pub fn test_is_terminal() {
    let mut game = TicTacToePosition {
        board: [None; 9],
        last_player: 1,
    };

    let oracle = TicTacToeOracle {};

    assert!(!oracle.is_terminal(&game));

    game.board = [Some(Piece::X), Some(Piece::X), Some(Piece::X), None, None, None, None, None, None];
    assert!(oracle.is_terminal(&game));

    game.board = [None, None, None, Some(Piece::X), Some(Piece::X), Some(Piece::X), None, None, None];
    assert!(oracle.is_terminal(&game));

    game.board = [None, None, None, None, None, None, Some(Piece::X), Some(Piece::X), Some(Piece::X)];
    assert!(oracle.is_terminal(&game));

    game.board = [Some(Piece::X), None, None, Some(Piece::X), None, None, Some(Piece::X), None, None];
    assert!(oracle.is_terminal(&game));

    game.board = [None, Some(Piece::X), None, None, Some(Piece::X), None, None, Some(Piece::X), None];
    assert!(oracle.is_terminal(&game));

    game.board = [None, None, Some(Piece::X), None, None, Some(Piece::X), None, None, Some(Piece::X)];
    assert!(oracle.is_terminal(&game));

    game.board = [Some(Piece::X), None, None, None, Some(Piece::X), None, None, None, Some(Piece::X)];
    assert!(oracle.is_terminal(&game));

    game.board = [None, None, Some(Piece::X), None, Some(Piece::X), None, Some(Piece::X), None, None];
    assert!(oracle.is_terminal(&game));

    // cat game
    game.board = [Some(Piece::X), Some(Piece::O), Some(Piece::X), Some(Piece::X), Some(Piece::O), Some(Piece::O), Some(Piece::O), Some(Piece::X), Some(Piece::O)];
    assert!(oracle.is_terminal(&game));
}

#[test]
fn apply_leaves_the_receiver_unchanged_and_flips_the_turn() {
    let game = TicTacToePosition { board: board_of("X........"), last_player: 0 };
    let next = game.apply(&TicTacToeMove { position: 4, piece: Piece::O });
    assert_eq!(game.board, board_of("X........"));
    assert_eq!(game.last_player, 0);
    assert_eq!(next.board, board_of("X...O...."));
    assert_eq!(next.last_player, 1);
}

#[test]
fn mixed_lines_and_partial_boards_are_not_terminal() {
    let oracle = TicTacToeOracle {};
    let game = TicTacToePosition { board: board_of("XXO......"), last_player: 0 };
    assert!(!oracle.is_terminal(&game));
    let game = TicTacToePosition { board: board_of("XOXXOOOX."), last_player: 0 };
    assert!(!oracle.is_terminal(&game));
}

#[test]
fn next_player_alternates_and_is_unknown_past_one() {
    let oracle = TicTacToeOracle {};
    let mut game = TicTacToePosition { board: [None; 9], last_player: 1 };
    assert_eq!(oracle.next_player(&game), Some(0));
    game.last_player = 0;
    assert_eq!(oracle.next_player(&game), Some(1));
    game.last_player = 2;
    assert_eq!(oracle.next_player(&game), None);
}

#[test]
fn turns_alternate_through_a_game() {
    let oracle = TicTacToeOracle {};
    let generator = TicTacToeMoveGenerator {};
    let mut game = TicTacToePosition { board: [None; 9], last_player: 1 };
    while !oracle.is_terminal(&game) {
        let side = oracle.next_player(&game).unwrap();
        let m = generator.get_moves(&game)[0];
        game = game.apply(&m);
        assert_eq!(oracle.next_player(&game), Some(1 - side));
    }
}

#[test]
fn moves_fill_empty_cells_with_the_piece_to_move() {
    let generator = TicTacToeMoveGenerator {};
    let game = TicTacToePosition { board: board_of("X.O.X.O.."), last_player: 0 };
    let moves = generator.get_moves(&game);
    let cells: Vec<usize> = moves.iter().map(|m| m.position).collect();
    assert_eq!(cells, vec![1, 3, 5, 7, 8]);
    assert!(moves.iter().all(|m| m.piece == Piece::O));
    let game = TicTacToePosition { board: board_of("X.O.X.O.."), last_player: 1 };
    assert!(generator.get_moves(&game).iter().all(|m| m.piece == Piece::X));
}

#[test]
fn moves_run_out_exactly_at_terminal() {
    let oracle = TicTacToeOracle {};
    let generator = TicTacToeMoveGenerator {};
    for cells in ["XOXXOOOXO", "XOXXOOOX.", ".........", "XO.OX...."] {
        let game = TicTacToePosition { board: board_of(cells), last_player: 0 };
        assert_eq!(generator.get_moves(&game).is_empty(), oracle.is_terminal(&game));
    }
    // a won board is terminal although cells remain, and offers no move
    let game = TicTacToePosition { board: board_of("XXXOO...."), last_player: 0 };
    assert!(oracle.is_terminal(&game));
    assert!(generator.get_moves(&game).is_empty());
}

#[test]
fn no_move_is_offered_after_a_line_reached_in_play() {
    let oracle = TicTacToeOracle {};
    let generator = TicTacToeMoveGenerator {};
    let mut game = TicTacToePosition { board: [None; 9], last_player: 1 };
    for cell in [0, 3, 1, 4, 2] {
        assert!(!oracle.is_terminal(&game));
        let m = *generator.get_moves(&game).iter().find(|m| m.position == cell).unwrap();
        game = game.apply(&m);
    }
    assert!(oracle.is_terminal(&game));
    assert!(generator.get_moves(&game).is_empty());
}

#[test]
fn evaluator_judges_from_its_own_side() {
    let x = TicTacToePositionEvaluator { player_piece: Piece::X };
    let o = TicTacToePositionEvaluator { player_piece: Piece::O };
    let won_by_x = TicTacToePosition { board: board_of("XXXOO...."), last_player: 0 };
    assert_eq!(x.evaluate(&won_by_x), PositionEvaluation::Winning);
    assert_eq!(o.evaluate(&won_by_x), PositionEvaluation::Losing);
    let open = TicTacToePosition { board: board_of("XO......."), last_player: 0 };
    assert_eq!(x.evaluate(&open), PositionEvaluation::Estimate(0));
    assert_eq!(o.evaluate(&open), PositionEvaluation::Estimate(0));
    let diagonal = TicTacToePosition { board: board_of("..O.O.OXX"), last_player: 0 };
    assert_eq!(o.evaluate(&diagonal), PositionEvaluation::Winning);
}

#[test]
fn both_strategies_take_an_immediate_win() {
    // X to move; cell 2 completes the top row
    let game = TicTacToePosition { board: board_of("XX.OO...."), last_player: 1 };
    let expected = 2;
    assert_eq!(max(Piece::X).choose_move(&game).unwrap().position, expected);
    assert_eq!(minimax(Piece::X).choose_move(&game).unwrap().position, expected);
    assert_eq!(minimax(Piece::X).choose_move(&game).unwrap().piece, Piece::X);
}

#[test]
fn minimax_blocks_a_threat() {
    // O to move; X threatens the top row at cell 2
    let game = TicTacToePosition { board: board_of("XX..O...."), last_player: 0 };
    assert_eq!(minimax(Piece::O).choose_move(&game).unwrap().position, 2);
}

#[test]
fn ties_go_to_the_first_move_listed() {
    // O to move; both cells 7 and 8 end in a draw
    let game = TicTacToePosition { board: board_of("XXOOOXX.."), last_player: 0 };
    for _ in 0..3 {
        assert_eq!(minimax(Piece::O).choose_move(&game).unwrap().position, 7);
        assert_eq!(max(Piece::O).choose_move(&game).unwrap().position, 7);
    }
}

#[test]
fn choice_is_the_same_on_every_call() {
    let game = TicTacToePosition { board: board_of("X...O...."), last_player: 1 };
    let strategy = minimax(Piece::X);
    let first = strategy.choose_move(&game).unwrap();
    for _ in 0..3 {
        let again = strategy.choose_move(&game).unwrap();
        assert_eq!(again.position, first.position);
        assert_eq!(again.piece, first.piece);
        let other = minimax(Piece::X).choose_move(&game).unwrap();
        assert_eq!(other.position, first.position);
    }
}

#[test]
fn choosing_at_a_terminal_position_fails() {
    let game = TicTacToePosition { board: board_of("XXXOO...."), last_player: 0 };
    assert_eq!(minimax(Piece::O).choose_move(&game).err(), Some(SearchError::TerminalPosition));
    assert_eq!(max(Piece::O).choose_move(&game).err(), Some(SearchError::TerminalPosition));
}

#[test]
fn player_picks_what_its_strategy_chooses() {
    let game = TicTacToePosition { board: board_of("XX.OO...."), last_player: 1 };
    let player = DefaultPlayer::new(minimax(Piece::X));
    assert_eq!(player.pick_move(&game).unwrap().position, 2);
}

fn run_minimax_game() -> GameEngine<
    TicTacToePosition,
    TicTacToeMove,
    DefaultPlayer<
        MinimaxMoveStrategy<
            TicTacToePosition,
            TicTacToeMove,
            TicTacToePositionEvaluator,
            TicTacToeMoveGenerator,
            TicTacToeOracle,
        >,
    >,
    TicTacToeOracle,
> {
    let start = TicTacToePosition { board: [None; 9], last_player: 1 };
    let mut engine = GameEngine::new(
        start,
        DefaultPlayer::new(minimax(Piece::X)),
        DefaultPlayer::new(minimax(Piece::O)),
        TicTacToeOracle {},
    );
    assert!(engine.moves.is_empty());
    assert_eq!(engine.run(), Ok(()));
    engine
}

#[test]
fn minimax_against_minimax_is_a_draw() {
    let engine = run_minimax_game();
    let last = engine.current_game_state;
    assert!(TicTacToeOracle {}.is_terminal(&last));
    assert!(!has_line(&last.board, Piece::X));
    assert!(!has_line(&last.board, Piece::O));
    assert!(last.board.iter().all(|c| c.is_some()));
    assert_eq!(engine.moves.len(), 9);
    assert_eq!(engine.initial_game_state.board, [None; 9]);
    // the record replays to the final position
    let mut replay = engine.initial_game_state;
    for m in engine.moves.iter() {
        replay = replay.apply(m);
    }
    assert_eq!(replay.board, last.board);
}

#[test]
fn engine_runs_are_repeatable() {
    let first = run_minimax_game();
    let second = run_minimax_game();
    let a: Vec<(usize, Piece)> = first.moves.iter().map(|m| (m.position, m.piece)).collect();
    let b: Vec<(usize, Piece)> = second.moves.iter().map(|m| (m.position, m.piece)).collect();
    assert_eq!(a, b);
}

#[test]
fn engine_stops_at_once_on_a_terminal_start() {
    let start = TicTacToePosition { board: board_of("XXXOO...."), last_player: 0 };
    let mut engine = GameEngine::new(
        start,
        DefaultPlayer::new(minimax(Piece::X)),
        DefaultPlayer::new(minimax(Piece::O)),
        TicTacToeOracle {},
    );
    assert_eq!(engine.run(), Ok(()));
    assert!(engine.moves.is_empty());
    assert_eq!(engine.current_game_state.board, start.board);
}

#[test]
fn engine_stops_where_no_player_is_to_move() {
    let start = TicTacToePosition { board: [None; 9], last_player: 5 };
    let mut engine = GameEngine::new(
        start,
        DefaultPlayer::new(minimax(Piece::X)),
        DefaultPlayer::new(minimax(Piece::O)),
        TicTacToeOracle {},
    );
    assert_eq!(engine.run(), Ok(()));
    assert!(engine.moves.is_empty());
}
