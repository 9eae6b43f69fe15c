use vstd::prelude::*;

use crate::evaluation::{PositionEvaluation, PositionEvaluator};
use crate::game::{advances, Move, MoveGenerator, Oracle, Position};

verus! {

/// What a cell holds.
#[derive(Clone, Copy, Debug, PartialEq, Eq, Structural)]
pub enum Piece {
    Red,
    Black,
    Empty,
    /// A piece that is never played, for an evaluator that must never judge
    /// a position won by its own side.
    Phantom,
}

/// A Connect Four position: seven columns of six cells, stored column by
/// column, each from its top cell down, and the index of the side that moved
/// last (0 for red, 1 for black).
#[derive(Clone, Copy, Debug)]
pub struct ConnectFourPosition {
    pub board: [Piece; 42],
    pub last_player: usize,
}

impl ConnectFourPosition {
    /// The empty board, with red to move first.
    pub fn new() -> (r: ConnectFourPosition)
        ensures
            forall|i: int| 0 <= i < 42 ==> #[trigger] r.board@[i] == Piece::Empty,
            r.last_player == 1,
    {
        ConnectFourPosition { board: [Piece::Empty;42], last_player: 1 }
    }
}

/// Dropping `piece` into `column`.
#[derive(Clone, Copy, Debug)]
pub struct ConnectFourMove {
    pub piece: Piece,
    pub column: usize,
}

impl Move for ConnectFourMove {

}

/// The number of empty cells among the first `n` of `board`.
pub open spec fn empty_cells(board: Seq<Piece>, n: nat) -> nat
    decreases n,
{
    if n == 0 {
        0
    } else {
        empty_cells(board, (n - 1) as nat) + if board[n - 1] == Piece::Empty {
            1nat
        } else {
            0nat
        }
    }
}

/// Filling an empty cell among the first `n` leaves one empty cell fewer
/// among them.
proof fn lemma_fill_empty_cell(board: Seq<Piece>, n: nat, i: int, piece: Piece)
    requires
        0 <= i < n <= board.len(),
        board[i] == Piece::Empty,
        piece != Piece::Empty,
    ensures
        empty_cells(board.update(i, piece), n) + 1 == empty_cells(board, n),
    decreases n,
{
    if i < n - 1 {
        lemma_fill_empty_cell(board, (n - 1) as nat, i, piece);
    } else {
        lemma_unchanged_prefix(board, board.update(i, piece), (n - 1) as nat);
    }
}

/// The count over a prefix depends on that prefix alone.
proof fn lemma_unchanged_prefix(a: Seq<Piece>, b: Seq<Piece>, n: nat)
    requires
        n <= a.len(),
        n <= b.len(),
        forall|j: int| 0 <= j < n ==> a[j] == b[j],
    ensures
        empty_cells(a, n) == empty_cells(b, n),
    decreases n,
{
    if n > 0 {
        lemma_unchanged_prefix(a, b, (n - 1) as nat);
    }
}

/// Where a piece dropped into `column` comes to rest, looking down from
/// cell `i`: just above the first occupied cell below, else at the bottom.
pub open spec fn landing_from(board: [Piece; 42], column: int, i: int) -> int
    decreases column * 6 + 5 - i,
{
    if i >= column * 6 + 5 {
        column * 6 + 5
    } else if board@[i + 1] != Piece::Empty {
        i
    } else {
        landing_from(board, column, i + 1)
    }
}

/// The cell where a piece dropped into `column` comes to rest.
pub open spec fn landing(board: [Piece; 42], column: int) -> int {
    landing_from(board, column, column * 6)
}

/// Looking down from an empty cell, the piece rests on an empty cell of the
/// same column.
proof fn lemma_lands_on_empty_cell(board: [Piece; 42], column: int, i: int)
    requires
        0 <= column < 7,
        column * 6 <= i <= column * 6 + 5,
        board@[i] == Piece::Empty,
    ensures
        i <= landing_from(board, column, i) <= column * 6 + 5,
        board@[landing_from(board, column, i)] == Piece::Empty,
    decreases column * 6 + 5 - i,
{
    if i < column * 6 + 5 && board@[i + 1] == Piece::Empty {
        lemma_lands_on_empty_cell(board, column, i + 1);
    }
}

/// The index of the side that plays `piece`.
pub open spec fn side_of(piece: Piece) -> usize {
    if piece == Piece::Red {
        0
    } else {
        1
    }
}

impl Position<ConnectFourMove> for ConnectFourPosition {
    open spec fn plies_left(&self) -> nat {
        empty_cells(self.board@, 42)
    }

    open spec fn can_apply(&self, m: ConnectFourMove) -> bool {
        m.column < 7
    }

    open spec fn spec_apply(&self, m: ConnectFourMove) -> ConnectFourPosition {
        ConnectFourPosition {
            board: vstd::array::spec_array_update(
                self.board,
                landing(self.board, m.column as int),
                m.piece,
            ),
            last_player: side_of(m.piece),
        }
    }

    fn apply(&self, m: &ConnectFourMove) -> (r: ConnectFourPosition) {
        let mut new_position = *self;
        new_position.last_player = match m.piece {
            Piece::Red => 0,
            _ => 1,
        };
        // drop the piece into position in the chosen column
        let mut i: usize = m.column * 6;
        while i < m.column * 6 + 5
            invariant
                m.column < 7,
                m.column * 6 <= i <= m.column * 6 + 5,
                new_position.board == self.board,
                new_position.last_player == side_of(m.piece),
                landing_from(self.board, m.column as int, i as int) == landing(
                    self.board,
                    m.column as int,
                ),
            decreases m.column * 6 + 5 - i,
        {
            if new_position.board[i + 1] != Piece::Empty {
                new_position.board[i] = m.piece;
                return new_position;
            }
            i = i + 1;
        }
        new_position.board[m.column * 6 + 5] = m.piece;
        new_position
    }
}

/// The piece of the side to move, when `last_player` moved last.
pub open spec fn piece_to_move(last_player: usize) -> Piece {
    if last_player == 0 {
        Piece::Black
    } else {
        Piece::Red
    }
}

/// The moves that drop `piece` into those of the first `n` columns whose top
/// cell is empty, in the order of the columns.
pub open spec fn moves_into_open_columns(board: [Piece; 42], piece: Piece, n: nat) -> Seq<
    ConnectFourMove,
>
    decreases n,
{
    if n == 0 {
        Seq::empty()
    } else {
        let earlier = moves_into_open_columns(board, piece, (n - 1) as nat);
        if board@[(n - 1) * 6] == Piece::Empty {
            earlier.push(ConnectFourMove { piece, column: (n - 1) as usize })
        } else {
            earlier
        }
    }
}

/// Each of those moves drops `piece` into an open column among the first
/// `n`, and each such column has one.
proof fn lemma_moves_into_open_columns(board: [Piece; 42], piece: Piece, n: nat)
    requires
        n <= 7,
    ensures
        forall|i: int|
            0 <= i < moves_into_open_columns(board, piece, n).len() ==> {
                let m = #[trigger] moves_into_open_columns(board, piece, n)[i];
                &&& m.column < n
                &&& board@[m.column * 6] == Piece::Empty
                &&& m.piece == piece
            },
        (moves_into_open_columns(board, piece, n).len() == 0) == (forall|c: int|
            0 <= c < n ==> board@[#[trigger] (c * 6)] != Piece::Empty),
    decreases n,
{
    if n > 0 {
        lemma_moves_into_open_columns(board, piece, (n - 1) as nat);
    }
}

/// Lists the columns that still have room, each as a move of the side to
/// move; none once a line of four stands.
pub struct ConnectFourMoveGenerator {}

impl MoveGenerator<ConnectFourPosition, ConnectFourMove> for ConnectFourMoveGenerator {
    open spec fn spec_moves(&self, game: ConnectFourPosition) -> Seq<ConnectFourMove> {
        if has_line_of_four(game.board) {
            Seq::empty()
        } else {
            moves_into_open_columns(game.board, piece_to_move(game.last_player), 7)
        }
    }

    proof fn lemma_moves_advance(&self, game: ConnectFourPosition) {
        let piece = piece_to_move(game.last_player);
        lemma_moves_into_open_columns(game.board, piece, 7);
        assert forall|i: int| 0 <= i < self.spec_moves(game).len() implies advances(
            game,
            #[trigger] self.spec_moves(game)[i],
        ) by {
            let m = self.spec_moves(game)[i];
            let cell = landing(game.board, m.column as int);
            lemma_lands_on_empty_cell(game.board, m.column as int, m.column * 6);
            lemma_fill_empty_cell(game.board@, 42, cell, m.piece);
            assert(game.spec_apply(m).board@ == game.board@.update(cell, m.piece));
        }
    }

    fn get_moves(&self, position: &ConnectFourPosition) -> (r: Vec<ConnectFourMove>) {
        // once a line of four stands the game is over: no move is legal
        let referee = ConnectFourPositionEvaluator { player_piece: Piece::Phantom };
        proof {
            lemma_estimate_iff_no_line(referee, *position);
        }
        match referee.evaluate(position) {
            PositionEvaluation::Estimate(_) => {},
            _ => {
                return vec![];
            },
        }
        let mut moves = vec![];
        let next_piece = match position.last_player {
            0 => Piece::Black,  // red moved last, so black is next
            _ => Piece::Red,
        };
        let mut column: usize = 0;
        while column < 7
            invariant
                column <= 7,
                next_piece == piece_to_move(position.last_player),
                !has_line_of_four(position.board),
                moves@ == moves_into_open_columns(position.board, next_piece, column as nat),
            decreases 7 - column,
        {
            if position.board[column * 6] == Piece::Empty {
                moves.push(ConnectFourMove { piece: next_piece, column });
            }
            column = column + 1;
        }
        moves
    }
}

/// The four directions in which four pieces can line up.
#[derive(Clone, Copy, Debug, PartialEq, Eq, Structural)]
pub enum Direction {
    Horizontal,
    Vertical,
    DownRight,
    UpRight,
}

impl Direction {
    /// The distance, in cell indices, from one cell of a line to the next.
    pub open spec fn step(self) -> int {
        match self {
            Direction::Horizontal => 6,
            Direction::Vertical => 1,
            Direction::DownRight => 7,
            Direction::UpRight => 5,
        }
    }

    /// The number of columns, from the first, in which a line may start.
    pub open spec fn columns(self) -> int {
        match self {
            Direction::Vertical => 7,
            _ => 4,
        }
    }

    /// The first row in which a line may start.
    pub open spec fn first_row(self) -> int {
        match self {
            Direction::UpRight => 3,
            _ => 0,
        }
    }

    /// The row after the last one in which a line may start.
    pub open spec fn end_row(self) -> int {
        match self {
            Direction::Horizontal | Direction::UpRight => 6,
            _ => 3,
        }
    }

    /// The columns, first row and end row of the starts of lines.
    fn starts(self) -> (r: (usize, usize, usize))
        ensures
            r.0 == self.columns(),
            r.1 == self.first_row(),
            r.2 == self.end_row(),
    {
        match self {
            Direction::Horizontal => (4, 0, 6),
            Direction::Vertical => (7, 0, 3),
            Direction::DownRight => (4, 0, 3),
            Direction::UpRight => (4, 3, 6),
        }
    }
}

/// The piece on cell `index` where it and the next three cells, `step`
/// apart, all hold it; else `Empty`.
pub open spec fn winner_along(board: [Piece; 42], index: int, step: int) -> Piece {
    if board@[index] == board@[index + step] && board@[index] == board@[index + 2 * step]
        && board@[index] == board@[index + 3 * step] {
        board@[index]
    } else {
        Piece::Empty
    }
}

/// The verdict that a line's `winner` gives for the side that plays
/// `player`: none where it is `Empty` and differs from `player`.
pub open spec fn verdict(winner: Piece, player: Piece) -> Option<PositionEvaluation> {
    if winner == player {
        Some(PositionEvaluation::Winning)
    } else if winner != Piece::Empty {
        Some(PositionEvaluation::Losing)
    } else {
        None
    }
}

/// The first verdict of the lines in `direction` that start in column
/// `column`, from row `row` down.
pub open spec fn row_verdict(
    board: [Piece; 42],
    player: Piece,
    direction: Direction,
    column: int,
    row: int,
) -> Option<PositionEvaluation>
    decreases direction.end_row() - row,
{
    if row >= direction.end_row() {
        None
    } else {
        match verdict(winner_along(board, column * 6 + row, direction.step()), player) {
            Some(v) => Some(v),
            None => row_verdict(board, player, direction, column, row + 1),
        }
    }
}

/// The first verdict of the lines in `direction` that start in column
/// `column` or a later one.
pub open spec fn column_verdict(
    board: [Piece; 42],
    player: Piece,
    direction: Direction,
    column: int,
) -> Option<PositionEvaluation>
    decreases direction.columns() - column,
{
    if column >= direction.columns() {
        None
    } else {
        match row_verdict(board, player, direction, column, direction.first_row()) {
            Some(v) => Some(v),
            None => column_verdict(board, player, direction, column + 1),
        }
    }
}

/// A line of four pieces of one kind starts at row `row` of column `column`
/// in `direction`.
pub open spec fn line_starts_at(board: [Piece; 42], direction: Direction, column: int, row: int) -> bool {
    &&& 0 <= column < direction.columns()
    &&& direction.first_row() <= row < direction.end_row()
    &&& winner_along(board, column * 6 + row, direction.step()) != Piece::Empty
}

/// Some line of four pieces of one kind stands on the board.
pub open spec fn has_line_of_four(board: [Piece; 42]) -> bool {
    exists|direction: Direction, column: int, row: int|
        #[trigger] line_starts_at(board, direction, column, row)
}

/// For a side that plays a real piece, the lines of a column from row
/// `row` down give a verdict exactly when one of them is a line of four.
proof fn lemma_row_verdict_finds_lines(
    board: [Piece; 42],
    player: Piece,
    direction: Direction,
    column: int,
    row: int,
)
    requires
        player != Piece::Empty,
        0 <= column < direction.columns(),
        direction.first_row() <= row,
    ensures
        row_verdict(board, player, direction, column, row) is Some <==> exists|r: int|
            row <= r && #[trigger] line_starts_at(board, direction, column, r),
        row_verdict(board, player, direction, column, row) is Some ==> !(row_verdict(
            board,
            player,
            direction,
            column,
            row,
        )->0 is Estimate),
    decreases direction.end_row() - row,
{
    if row < direction.end_row() {
        lemma_row_verdict_finds_lines(board, player, direction, column, row + 1);
        if line_starts_at(board, direction, column, row) {
            assert(row_verdict(board, player, direction, column, row) is Some);
        } else {
            assert forall|r: int| row <= r && #[trigger] line_starts_at(board, direction, column, r)
                implies row + 1 <= r by {}
        }
    }
}

/// For a side that plays a real piece, the lines in `direction` that start
/// in column `column` or a later one give a verdict exactly when one of
/// them is a line of four.
proof fn lemma_column_verdict_finds_lines(
    board: [Piece; 42],
    player: Piece,
    direction: Direction,
    column: int,
)
    requires
        player != Piece::Empty,
        0 <= column,
    ensures
        column_verdict(board, player, direction, column) is Some <==> exists|c: int, r: int|
            column <= c && #[trigger] line_starts_at(board, direction, c, r),
        column_verdict(board, player, direction, column) is Some ==> !(column_verdict(
            board,
            player,
            direction,
            column,
        )->0 is Estimate),
    decreases direction.columns() - column,
{
    if column < direction.columns() {
        lemma_row_verdict_finds_lines(board, player, direction, column, direction.first_row());
        lemma_column_verdict_finds_lines(board, player, direction, column + 1);
        if row_verdict(board, player, direction, column, direction.first_row()) is Some {
            let r = choose|r: int|
                direction.first_row() <= r && #[trigger] line_starts_at(board, direction, column, r);
            assert(line_starts_at(board, direction, column, r));
        } else {
            assert forall|c: int, r: int| column <= c && #[trigger] line_starts_at(
                board,
                direction,
                c,
                r,
            ) implies column + 1 <= c by {
                if c == column {
                    assert(line_starts_at(board, direction, column, r));
                }
            }
        }
    }
}

/// Scores a position for the side that plays `player_piece`, by the first
/// line of four found: horizontal lines first, then vertical ones, then the
/// two diagonals.
pub struct ConnectFourPositionEvaluator {
    pub player_piece: Piece,
}

impl ConnectFourPositionEvaluator {
    fn get_horizontal_winner(&self, position: &ConnectFourPosition, index: usize) -> (r: Piece)
        requires
            index + 18 < 42,
        ensures
            r == winner_along(position.board, index as int, 6),
    {
        if position.board[index] == position.board[index + 6] && position.board[index]
            == position.board[index + 12] && position.board[index] == position.board[index + 18] {
            return position.board[index];
        }
        Piece::Empty
    }

    fn get_vertical_winner(&self, position: &ConnectFourPosition, index: usize) -> (r: Piece)
        requires
            index + 3 < 42,
        ensures
            r == winner_along(position.board, index as int, 1),
    {
        if position.board[index] == position.board[index + 1] && position.board[index]
            == position.board[index + 2] && position.board[index] == position.board[index + 3] {
            return position.board[index];
        }
        Piece::Empty
    }

    fn get_down_right_winner(&self, position: &ConnectFourPosition, index: usize) -> (r: Piece)
        requires
            index + 21 < 42,
        ensures
            r == winner_along(position.board, index as int, 7),
    {
        if position.board[index] == position.board[index + 7] && position.board[index]
            == position.board[index + 14] && position.board[index] == position.board[index + 21] {
            return position.board[index];
        }
        Piece::Empty
    }

    fn get_up_right_winner(&self, position: &ConnectFourPosition, index: usize) -> (r: Piece)
        requires
            index + 15 < 42,
        ensures
            r == winner_along(position.board, index as int, 5),
    {
        if position.board[index] == position.board[index + 5] && position.board[index]
            == position.board[index + 10] && position.board[index] == position.board[index + 15] {
            return position.board[index];
        }
        Piece::Empty
    }

    /// The first verdict of the lines in `direction`, column by column.
    fn scan_direction(&self, position: &ConnectFourPosition, direction: Direction) -> (r: Option<
        PositionEvaluation,
    >)
        ensures
            r == column_verdict(position.board, self.player_piece, direction, 0),
    {
        let (columns, first_row, end_row) = direction.starts();
        let mut col: usize = 0;
        while col < columns
            invariant
                columns == direction.columns(),
                first_row == direction.first_row(),
                end_row == direction.end_row(),
                col <= columns,
                column_verdict(position.board, self.player_piece, direction, 0) == column_verdict(
                    position.board,
                    self.player_piece,
                    direction,
                    col as int,
                ),
            decreases columns - col,
        {
            let mut row: usize = first_row;
            while row < end_row
                invariant
                    columns == direction.columns(),
                    first_row == direction.first_row(),
                    end_row == direction.end_row(),
                    col < columns,
                    first_row <= row <= end_row,
                    column_verdict(position.board, self.player_piece, direction, 0)
                        == column_verdict(position.board, self.player_piece, direction, col as int),
                    row_verdict(
                        position.board,
                        self.player_piece,
                        direction,
                        col as int,
                        first_row as int,
                    ) == row_verdict(
                        position.board,
                        self.player_piece,
                        direction,
                        col as int,
                        row as int,
                    ),
                decreases end_row - row,
            {
                let index = col * 6 + row;
                let winner = match direction {
                    Direction::Horizontal => self.get_horizontal_winner(position, index),
                    Direction::Vertical => self.get_vertical_winner(position, index),
                    Direction::DownRight => self.get_down_right_winner(position, index),
                    Direction::UpRight => self.get_up_right_winner(position, index),
                };
                if winner == self.player_piece {
                    return Some(PositionEvaluation::Winning);
                } else if winner != Piece::Empty {
                    return Some(PositionEvaluation::Losing);
                }
                row = row + 1;
            }
            col = col + 1;
        }
        None
    }
}

impl PositionEvaluator<ConnectFourPosition, ConnectFourMove> for ConnectFourPositionEvaluator {
    open spec fn spec_evaluate(&self, position: ConnectFourPosition) -> PositionEvaluation {
        let board = position.board;
        let player = self.player_piece;
        match column_verdict(board, player, Direction::Horizontal, 0) {
            Some(v) => v,
            None => match column_verdict(board, player, Direction::Vertical, 0) {
                Some(v) => v,
                None => match column_verdict(board, player, Direction::DownRight, 0) {
                    Some(v) => v,
                    None => match column_verdict(board, player, Direction::UpRight, 0) {
                        Some(v) => v,
                        None => PositionEvaluation::Estimate(0),
                    },
                },
            },
        }
    }

    fn evaluate(&self, position: &ConnectFourPosition) -> (r: PositionEvaluation) {
        // horizontal lines, then vertical ones, then the two diagonals
        if let Some(v) = self.scan_direction(position, Direction::Horizontal) {
            return v;
        }
        if let Some(v) = self.scan_direction(position, Direction::Vertical) {
            return v;
        }
        if let Some(v) = self.scan_direction(position, Direction::DownRight) {
            return v;
        }
        if let Some(v) = self.scan_direction(position, Direction::UpRight) {
            return v;
        }
        PositionEvaluation::Estimate(0)
    }
}

/// For a side that plays a real piece, the evaluator gives a neutral
/// estimate exactly when no line of four stands on the board.
pub proof fn lemma_estimate_iff_no_line(
    evaluator: ConnectFourPositionEvaluator,
    position: ConnectFourPosition,
)
    requires
        evaluator.player_piece != Piece::Empty,
    ensures
        evaluator.spec_evaluate(position) is Estimate <==> !has_line_of_four(position.board),
{
    let board = position.board;
    let player = evaluator.player_piece;
    lemma_column_verdict_finds_lines(board, player, Direction::Horizontal, 0);
    lemma_column_verdict_finds_lines(board, player, Direction::Vertical, 0);
    lemma_column_verdict_finds_lines(board, player, Direction::DownRight, 0);
    lemma_column_verdict_finds_lines(board, player, Direction::UpRight, 0);
    if has_line_of_four(board) {
        let (d, c, r) = choose|d: Direction, c: int, r: int| #[trigger] line_starts_at(board, d, c, r);
        assert(line_starts_at(board, d, c, r));
        match d {
            Direction::Horizontal => {},
            Direction::Vertical => {},
            Direction::DownRight => {},
            Direction::UpRight => {},
        }
    }
}

/// Every cell holds a piece.
pub open spec fn is_full(board: [Piece; 42]) -> bool {
    forall|i: int| 0 <= i < 42 ==> #[trigger] board@[i] != Piece::Empty
}

/// Knows whose turn it is and when a Connect Four game is over: when its
/// evaluator finds a line of four, or when the board is full.
pub struct ConnectFourOracle {
    pub position_evaluator: ConnectFourPositionEvaluator,
}

impl Oracle<ConnectFourPosition, ConnectFourMove> for ConnectFourOracle {
    open spec fn spec_next_player(&self, position: ConnectFourPosition) -> Option<usize> {
        if position.last_player == 0 {
            Some(1)
        } else {
            Some(0)
        }
    }

    open spec fn spec_is_terminal(&self, position: ConnectFourPosition) -> bool {
        !(self.position_evaluator.spec_evaluate(position) is Estimate) || is_full(position.board)
    }

    fn next_player(&self, position: &ConnectFourPosition) -> (r: Option<usize>) {
        match position.last_player {
            0 => Some(1),
            _ => Some(0),
        }
    }

    fn is_terminal(&self, position: &ConnectFourPosition) -> (r: bool) {
        match self.position_evaluator.evaluate(position) {
            PositionEvaluation::Winning | PositionEvaluation::Losing => return true,
            _ => (),
        };
        // with no line of four, the game is still over when the board is full
        let mut index: usize = 0;
        while index < 42
            invariant
                index <= 42,
                self.position_evaluator.spec_evaluate(*position) is Estimate,
                forall|i: int| 0 <= i < index ==> #[trigger] position.board@[i] != Piece::Empty,
            decreases 42 - index,
        {
            if position.board[index] == Piece::Empty {
                return false;
            }
            index = index + 1;
        }
        true
    }
}

/// The cell in `row` (counted from the top) of `column`.
pub open spec fn cell(board: [Piece; 42], column: int, row: int) -> Piece {
    board@[column * 6 + row]
}

/// Pieces rest on one another: below an occupied cell no cell is empty.
pub open spec fn is_settled(board: [Piece; 42]) -> bool {
    forall|column: int, row: int|
        0 <= column < 7 && 0 <= row < 5 && #[trigger] cell(board, column, row) != Piece::Empty
            ==> cell(board, column, row + 1) != Piece::Empty
}

/// On a settled board whose columns are full at the top, every cell is
/// occupied.
proof fn lemma_settled_columns_full(board: [Piece; 42])
    requires
        is_settled(board),
        forall|c: int| 0 <= c < 7 ==> board@[#[trigger] (c * 6)] != Piece::Empty,
    ensures
        is_full(board),
{
    assert forall|i: int| 0 <= i < 42 implies #[trigger] board@[i] != Piece::Empty by {
        let c = i / 6;
        let r = i % 6;
        assert(board@[c * 6] != Piece::Empty);
        assert(cell(board, c, 0) != Piece::Empty);
        assert(cell(board, c, 1) != Piece::Empty);
        assert(cell(board, c, 2) != Piece::Empty);
        assert(cell(board, c, 3) != Piece::Empty);
        assert(cell(board, c, 4) != Piece::Empty);
        assert(cell(board, c, 5) != Piece::Empty);
        assert(i == c * 6 + r);
        assert(board@[i] == cell(board, c, r));
    }
}

/// Looking down from cell `i`, the piece comes to rest on a taken cell, or
/// on the bottom one.
proof fn lemma_landing_rests_on_a_piece(board: [Piece; 42], column: int, i: int)
    requires
        0 <= column < 7,
        column * 6 <= i <= column * 6 + 5,
    ensures
        i <= landing_from(board, column, i) <= column * 6 + 5,
        landing_from(board, column, i) < column * 6 + 5 ==> board@[landing_from(board, column, i)
            + 1] != Piece::Empty,
    decreases column * 6 + 5 - i,
{
    if i < column * 6 + 5 && board@[i + 1] == Piece::Empty {
        lemma_landing_rests_on_a_piece(board, column, i + 1);
    }
}

/// The empty board is settled.
pub proof fn lemma_new_board_is_settled(game: ConnectFourPosition)
    requires
        forall|i: int| 0 <= i < 42 ==> #[trigger] game.board@[i] == Piece::Empty,
    ensures
        is_settled(game.board),
{
    assert forall|column: int, row: int|
        0 <= column < 7 && 0 <= row < 5 && #[trigger] cell(
            game.board,
            column,
            row,
        ) != Piece::Empty implies cell(game.board, column, row + 1) != Piece::Empty by {
        assert(game.board@[column * 6 + row] == Piece::Empty);
    }
}

/// A legal move keeps a settled board settled: every position reached in
/// play from the empty board is settled.
pub proof fn lemma_moves_keep_board_settled(
    generator: ConnectFourMoveGenerator,
    game: ConnectFourPosition,
    m: ConnectFourMove,
)
    requires
        is_settled(game.board),
        generator.spec_moves(game).contains(m),
    ensures
        is_settled(game.spec_apply(m).board),
{
    lemma_moves_into_open_columns(game.board, piece_to_move(game.last_player), 7);
    let i = choose|i: int|
        0 <= i < generator.spec_moves(game).len() && generator.spec_moves(game)[i] == m;
    assert(m == generator.spec_moves(game)[i]);
    let c = m.column as int;
    let spot = landing(game.board, c);
    lemma_landing_rests_on_a_piece(game.board, c, c * 6);
    let after = game.spec_apply(m).board;
    assert(after@ == game.board@.update(spot, m.piece));
    assert forall|column: int, row: int|
        0 <= column < 7 && 0 <= row < 5 && #[trigger] cell(after, column, row) != Piece::Empty
            implies cell(after, column, row + 1) != Piece::Empty by {
        if column * 6 + row != spot {
            assert(cell(game.board, column, row) != Piece::Empty);
        }
    }
}

/// Turns alternate: after a move by the side to move, the other side is to
/// move.
pub proof fn lemma_turns_alternate(
    oracle: ConnectFourOracle,
    generator: ConnectFourMoveGenerator,
    game: ConnectFourPosition,
    m: ConnectFourMove,
    side: usize,
)
    requires
        oracle.spec_next_player(game) == Some(side),
        generator.spec_moves(game).contains(m),
    ensures
        oracle.spec_next_player(game.spec_apply(m)) == Some((1 - side) as usize),
{
    lemma_moves_into_open_columns(game.board, piece_to_move(game.last_player), 7);
    let i = choose|i: int|
        0 <= i < generator.spec_moves(game).len() && generator.spec_moves(game)[i] == m;
    assert(m == generator.spec_moves(game)[i]);
}

/// On a settled board, as every board reached in play is, the generator
/// runs out of moves exactly when the oracle calls the game over, whichever
/// real piece the oracle's evaluator plays.
pub proof fn lemma_moves_run_out_at_terminal(
    oracle: ConnectFourOracle,
    generator: ConnectFourMoveGenerator,
    game: ConnectFourPosition,
)
    requires
        is_settled(game.board),
        oracle.position_evaluator.player_piece != Piece::Empty,
    ensures
        (generator.spec_moves(game).len() == 0) == oracle.spec_is_terminal(game),
{
    let board = game.board;
    lemma_estimate_iff_no_line(oracle.position_evaluator, game);
    if !has_line_of_four(board) {
        lemma_moves_into_open_columns(board, piece_to_move(game.last_player), 7);
        if generator.spec_moves(game).len() == 0 {
            lemma_settled_columns_full(board);
        } else {
            assert(!is_full(board)) by {
                let c = choose|c: int| 0 <= c < 7 && board@[#[trigger] (c * 6)] == Piece::Empty;
                assert(board@[c * 6] == Piece::Empty);
            }
        }
    }
}

} // verus!
