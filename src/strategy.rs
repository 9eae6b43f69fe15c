use vstd::prelude::*;

use crate::game::{advances, Move, MoveGenerator, Oracle, Position};

verus! {

/// Why a strategy could not choose a move.
#[derive(Clone, Copy, Debug, PartialEq, Eq, Structural)]
pub enum SearchError {
    /// A position that the oracle calls non-terminal has no legal move: the
    /// oracle and the move generator disagree.
    NoLegalMoves,
    /// The strategy was asked to move at a terminal position.
    TerminalPosition,
}

/// Play from `game` never reaches a live position without a legal move:
/// `game` is terminal, or it has legal moves and every one of them leads to
/// such a position again.
pub open spec fn never_stuck<P, M, G, O>(generator: G, oracle: O, game: P) -> bool where
    P: Position<M>,
    M: Move,
    G: MoveGenerator<P, M>,
    O: Oracle<P, M>,

    decreases game.plies_left(),
{
    proof {
        generator.lemma_moves_advance(game);
    }
    oracle.spec_is_terminal(game) || {
        &&& generator.spec_moves(game).len() > 0
        &&& forall|i: int|
            0 <= i < generator.spec_moves(game).len() ==> never_stuck::<P, M, G, O>(
                generator,
                oracle,
                game.spec_apply(#[trigger] generator.spec_moves(game)[i]),
            )
    }
}

/// An algorithm that chooses one move at a position.
pub trait MoveStrategy<P: Position<M>, M: Move> {
    /// The move chosen at `game`, or why there is none.
    spec fn spec_choose_move(&self, game: P) -> Result<M, SearchError>;

    /// A chosen move can be applied, and brings the game closer to its end.
    proof fn lemma_choice_advances(&self, game: P)
        ensures
            self.spec_choose_move(game) is Ok ==> advances(
                game,
                self.spec_choose_move(game)->Ok_0,
            ),
    ;

    /// Chooses a move at `game`.
    fn choose_move(&self, game: &P) -> (r: Result<M, SearchError>)
        ensures
            r == self.spec_choose_move(*game),
    ;
}

} // verus!
