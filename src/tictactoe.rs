use vstd::prelude::*;

use crate::evaluation::{PositionEvaluation, PositionEvaluator};
use crate::game::{advances, Move, MoveGenerator, Oracle, Position};

verus! {

/// A tic-tac-toe position: nine cells, row by row from the upper left, and
/// the index of the side that moved last.
#[derive(Clone, Copy, Debug)]
pub struct TicTacToePosition {
    pub board: [Option<Piece>; 9],
    pub last_player: usize,
}

/// A mark on the board.
#[derive(Clone, Copy, Debug, PartialEq, Eq, Structural)]
pub enum Piece {
    X,
    O,
}

/// Placing `piece` on cell `position`.
#[derive(Clone, Copy, Debug)]
pub struct TicTacToeMove {
    pub position: usize,
    pub piece: Piece,
}

impl Move for TicTacToeMove {

}

/// The number of empty cells among the first `n` of `board`.
pub open spec fn empty_cells(board: Seq<Option<Piece>>, n: nat) -> nat
    decreases n,
{
    if n == 0 {
        0
    } else {
        empty_cells(board, (n - 1) as nat) + if board[n - 1] is None {
            1nat
        } else {
            0nat
        }
    }
}

/// Filling an empty cell among the first `n` leaves one empty cell fewer
/// among them.
proof fn lemma_fill_empty_cell(board: Seq<Option<Piece>>, n: nat, i: int, piece: Piece)
    requires
        0 <= i < n <= board.len(),
        board[i] is None,
    ensures
        empty_cells(board.update(i, Some(piece)), n) + 1 == empty_cells(board, n),
    decreases n,
{
    if i < n - 1 {
        lemma_fill_empty_cell(board, (n - 1) as nat, i, piece);
    } else {
        lemma_unchanged_prefix(board, board.update(i, Some(piece)), (n - 1) as nat);
    }
}

/// The count over a prefix depends on that prefix alone.
proof fn lemma_unchanged_prefix(a: Seq<Option<Piece>>, b: Seq<Option<Piece>>, n: nat)
    requires
        n <= a.len(),
        n <= b.len(),
        forall|j: int| 0 <= j < n ==> a[j] == b[j],
    ensures
        empty_cells(a, n) == empty_cells(b, n),
    decreases n,
{
    if n > 0 {
        lemma_unchanged_prefix(a, b, (n - 1) as nat);
    }
}

/// The board after `m`: its piece on its cell.
pub open spec fn board_after(board: [Option<Piece>; 9], m: TicTacToeMove) -> [Option<Piece>; 9] {
    vstd::array::spec_array_update(board, m.position as int, Some(m.piece))
}

impl Position<TicTacToeMove> for TicTacToePosition {
    open spec fn plies_left(&self) -> nat {
        empty_cells(self.board@, 9)
    }

    open spec fn can_apply(&self, m: TicTacToeMove) -> bool {
        m.position < 9
    }

    open spec fn spec_apply(&self, m: TicTacToeMove) -> TicTacToePosition {
        TicTacToePosition {
            board: board_after(self.board, m),
            last_player: ((self.last_player + 1) % 2) as usize,
        }
    }

    fn apply(&self, m: &TicTacToeMove) -> (r: TicTacToePosition) {
        let mut new_position = *self;
        new_position.board[m.position] = Some(m.piece);
        new_position.last_player = 1 - new_position.last_player % 2;
        new_position
    }
}

/// Cells `x`, `y` and `z` hold the same piece.
pub open spec fn three_in_a_row(board: [Option<Piece>; 9], x: int, y: int, z: int) -> bool {
    &&& board@[x] is Some
    &&& board@[x] == board@[y]
    &&& board@[y] == board@[z]
}

/// Some row, column or diagonal holds three of the same piece.
pub open spec fn has_winning_line(board: [Option<Piece>; 9]) -> bool {
    ||| three_in_a_row(board, 0, 1, 2)
    ||| three_in_a_row(board, 3, 4, 5)
    ||| three_in_a_row(board, 6, 7, 8)
    ||| three_in_a_row(board, 0, 3, 6)
    ||| three_in_a_row(board, 1, 4, 7)
    ||| three_in_a_row(board, 2, 5, 8)
    ||| three_in_a_row(board, 0, 4, 8)
    ||| three_in_a_row(board, 2, 4, 6)
}

/// Every cell holds a piece.
pub open spec fn is_full(board: [Option<Piece>; 9]) -> bool {
    forall|i: int| 0 <= i < 9 ==> (#[trigger] board@[i]) is Some
}

/// Knows whose turn it is and when a tic-tac-toe game is over.
pub struct TicTacToeOracle {}

impl TicTacToeOracle {
    fn is_three_in_a_row(game: &TicTacToePosition, x: usize, y: usize, z: usize) -> (r: bool)
        requires
            x < 9,
            y < 9,
            z < 9,
        ensures
            r == three_in_a_row(game.board, x as int, y as int, z as int),
    {
        game.board[x].is_some() && game.board[y].is_some() && game.board[z].is_some()
            && game.board[x].unwrap() == game.board[y].unwrap() && game.board[y].unwrap()
            == game.board[z].unwrap()
    }

    fn has_winning_line(game: &TicTacToePosition) -> (r: bool)
        ensures
            r == has_winning_line(game.board),
    {
        Self::is_three_in_a_row(game, 0, 1, 2) || Self::is_three_in_a_row(game, 3, 4, 5)
            || Self::is_three_in_a_row(game, 6, 7, 8) || Self::is_three_in_a_row(game, 0, 3, 6)
            || Self::is_three_in_a_row(game, 1, 4, 7) || Self::is_three_in_a_row(game, 2, 5, 8)
            || Self::is_three_in_a_row(game, 0, 4, 8) || Self::is_three_in_a_row(game, 2, 4, 6)
    }

    fn is_cat_game(game: &TicTacToePosition) -> (r: bool)
        ensures
            r == is_full(game.board),
    {
        let mut i: usize = 0;
        while i < 9
            invariant
                i <= 9,
                forall|j: int| 0 <= j < i ==> (#[trigger] game.board@[j]) is Some,
            decreases 9 - i,
        {
            if game.board[i].is_none() {
                return false;
            }
            i = i + 1;
        }
        true
    }
}

impl Oracle<TicTacToePosition, TicTacToeMove> for TicTacToeOracle {
    open spec fn spec_next_player(&self, game: TicTacToePosition) -> Option<usize> {
        if game.last_player == 0 {
            Some(1)
        } else if game.last_player == 1 {
            Some(0)
        } else {
            None
        }
    }

    open spec fn spec_is_terminal(&self, game: TicTacToePosition) -> bool {
        has_winning_line(game.board) || is_full(game.board)
    }

    fn next_player(&self, game: &TicTacToePosition) -> (r: Option<usize>) {
        match game.last_player {
            0 => Some(1),
            1 => Some(0),
            _ => None,
        }
    }

    fn is_terminal(&self, game: &TicTacToePosition) -> (r: bool) {
        Self::has_winning_line(game) || Self::is_cat_game(game)
    }
}

/// The piece of the side to move, when `last_player` moved last.
pub open spec fn piece_to_move(last_player: usize) -> Piece {
    if last_player == 0 {
        Piece::O
    } else {
        Piece::X
    }
}

/// The moves that place `piece` on the empty cells among the first `n`, in
/// the order of the cells.
pub open spec fn moves_onto_empty_cells(board: Seq<Option<Piece>>, piece: Piece, n: nat) -> Seq<
    TicTacToeMove,
>
    decreases n,
{
    if n == 0 {
        Seq::empty()
    } else {
        let earlier = moves_onto_empty_cells(board, piece, (n - 1) as nat);
        if board[n - 1] is None {
            earlier.push(TicTacToeMove { position: (n - 1) as usize, piece })
        } else {
            earlier
        }
    }
}

/// Each of those moves places `piece` on an empty cell among the first `n`,
/// and there are as many as there are such cells.
proof fn lemma_moves_onto_empty_cells(board: Seq<Option<Piece>>, piece: Piece, n: nat)
    requires
        n <= board.len(),
        n <= 9,
    ensures
        moves_onto_empty_cells(board, piece, n).len() == empty_cells(board, n),
        forall|i: int|
            0 <= i < moves_onto_empty_cells(board, piece, n).len() ==> {
                let m = #[trigger] moves_onto_empty_cells(board, piece, n)[i];
                &&& m.position < n
                &&& board[m.position as int] is None
                &&& m.piece == piece
            },
    decreases n,
{
    if n > 0 {
        lemma_moves_onto_empty_cells(board, piece, (n - 1) as nat);
    }
}

/// Lists the empty cells, each as a move of the side to move; none once a
/// line has been made.
pub struct TicTacToeMoveGenerator {}

impl MoveGenerator<TicTacToePosition, TicTacToeMove> for TicTacToeMoveGenerator {
    open spec fn spec_moves(&self, game: TicTacToePosition) -> Seq<TicTacToeMove> {
        if has_winning_line(game.board) {
            Seq::empty()
        } else {
            moves_onto_empty_cells(game.board@, piece_to_move(game.last_player), 9)
        }
    }

    proof fn lemma_moves_advance(&self, game: TicTacToePosition) {
        let piece = piece_to_move(game.last_player);
        lemma_moves_onto_empty_cells(game.board@, piece, 9);
        assert forall|i: int| 0 <= i < self.spec_moves(game).len() implies advances(
            game,
            #[trigger] self.spec_moves(game)[i],
        ) by {
            let m = self.spec_moves(game)[i];
            lemma_fill_empty_cell(game.board@, 9, m.position as int, m.piece);
            assert(game.spec_apply(m).board@ == game.board@.update(m.position as int, Some(m.piece)));
        }
    }

    fn get_moves(&self, game: &TicTacToePosition) -> (r: Vec<TicTacToeMove>) {
        // once a line is made the game is over: no move is legal
        if TicTacToeOracle::has_winning_line(game) {
            return vec![];
        }
        let piece = match game.last_player {
            0 => Piece::O,
            _ => Piece::X,
        };
        let mut moves = vec![];
        let mut i: usize = 0;
        while i < 9
            invariant
                i <= 9,
                piece == piece_to_move(game.last_player),
                !has_winning_line(game.board),
                moves@ == moves_onto_empty_cells(game.board@, piece, i as nat),
            decreases 9 - i,
        {
            match game.board[i] {
                None => moves.push(TicTacToeMove { position: i, piece }),
                _ => (),
            }
            i = i + 1;
        }
        moves
    }
}

/// Cells `x`, `y` and `z` all hold `piece`.
pub open spec fn line_of(board: [Option<Piece>; 9], piece: Piece, x: int, y: int, z: int) -> bool {
    &&& board@[x] == Some(piece)
    &&& board@[y] == Some(piece)
    &&& board@[z] == Some(piece)
}

/// Some row, column or diagonal holds three of `piece`.
pub open spec fn has_line_of(board: [Option<Piece>; 9], piece: Piece) -> bool {
    ||| line_of(board, piece, 0, 1, 2)
    ||| line_of(board, piece, 3, 4, 5)
    ||| line_of(board, piece, 6, 7, 8)
    ||| line_of(board, piece, 0, 3, 6)
    ||| line_of(board, piece, 1, 4, 7)
    ||| line_of(board, piece, 2, 5, 8)
    ||| line_of(board, piece, 0, 4, 8)
    ||| line_of(board, piece, 2, 4, 6)
}

/// The other side's piece.
pub open spec fn opponent(piece: Piece) -> Piece {
    match piece {
        Piece::X => Piece::O,
        Piece::O => Piece::X,
    }
}

/// Scores a position for the side that plays `player_piece`: `Winning`
/// when it has three in a row, `Losing` when the other side has, else a
/// neutral estimate.
pub struct TicTacToePositionEvaluator {
    pub player_piece: Piece,
}

impl TicTacToePositionEvaluator {
    fn is_line_of(position: &TicTacToePosition, piece: Piece, x: usize, y: usize, z: usize) -> (r:
        bool)
        requires
            x < 9,
            y < 9,
            z < 9,
        ensures
            r == line_of(position.board, piece, x as int, y as int, z as int),
    {
        position.board[x].is_some() && position.board[y].is_some() && position.board[z].is_some()
            && position.board[x].unwrap() == piece && position.board[y].unwrap() == piece
            && position.board[z].unwrap() == piece
    }

    fn has_three_in_a_row(&self, position: &TicTacToePosition, piece: Piece) -> (r: bool)
        ensures
            r == has_line_of(position.board, piece),
    {
        Self::is_line_of(position, piece, 0, 1, 2) || Self::is_line_of(position, piece, 3, 4, 5)
            || Self::is_line_of(position, piece, 6, 7, 8) || Self::is_line_of(
            position,
            piece,
            0,
            3,
            6,
        ) || Self::is_line_of(position, piece, 1, 4, 7) || Self::is_line_of(
            position,
            piece,
            2,
            5,
            8,
        ) || Self::is_line_of(position, piece, 0, 4, 8) || Self::is_line_of(
            position,
            piece,
            2,
            4,
            6,
        )
    }
}

impl PositionEvaluator<TicTacToePosition, TicTacToeMove> for TicTacToePositionEvaluator {
    open spec fn spec_evaluate(&self, position: TicTacToePosition) -> PositionEvaluation {
        if has_line_of(position.board, self.player_piece) {
            PositionEvaluation::Winning
        } else if has_line_of(position.board, opponent(self.player_piece)) {
            PositionEvaluation::Losing
        } else {
            PositionEvaluation::Estimate(0)
        }
    }

    fn evaluate(&self, position: &TicTacToePosition) -> (r: PositionEvaluation) {
        let other_piece = match self.player_piece {
            Piece::X => Piece::O,
            _ => Piece::X,
        };
        if self.has_three_in_a_row(position, self.player_piece) {
            PositionEvaluation::Winning
        } else if self.has_three_in_a_row(position, other_piece) {
            PositionEvaluation::Losing
        } else {
            PositionEvaluation::Estimate(0)
        }
    }
}

/// No empty cell is left among the first `n` exactly when each of them
/// holds a piece.
proof fn lemma_no_empty_cells(board: Seq<Option<Piece>>, n: nat)
    requires
        n <= board.len(),
    ensures
        (empty_cells(board, n) == 0) == (forall|j: int| 0 <= j < n ==> (#[trigger] board[j]) is Some),
    decreases n,
{
    if n > 0 {
        lemma_no_empty_cells(board, (n - 1) as nat);
    }
}

/// Turns alternate: after a move by the side to move, the other side is to
/// move.
pub proof fn lemma_turns_alternate(
    oracle: TicTacToeOracle,
    game: TicTacToePosition,
    m: TicTacToeMove,
    side: usize,
)
    requires
        oracle.spec_next_player(game) == Some(side),
        game.can_apply(m),
    ensures
        oracle.spec_next_player(game.spec_apply(m)) == Some((1 - side) as usize),
{
}

/// The generator runs out of moves exactly when the oracle calls the game
/// over.
pub proof fn lemma_moves_run_out_at_terminal(
    oracle: TicTacToeOracle,
    generator: TicTacToeMoveGenerator,
    game: TicTacToePosition,
)
    ensures
        (generator.spec_moves(game).len() == 0) == oracle.spec_is_terminal(game),
{
    lemma_moves_onto_empty_cells(game.board@, piece_to_move(game.last_player), 9);
    lemma_no_empty_cells(game.board@, 9);
}

} // verus!
