use vstd::prelude::*;

use crate::game::{advances, Move, Position};
use crate::strategy::{MoveStrategy, SearchError};

verus! {

/// An actor that picks its moves.
pub trait Player<P: Position<M>, M: Move> {
    /// The move picked at `game`, or why there is none.
    spec fn spec_pick_move(&self, game: P) -> Result<M, SearchError>;

    /// A picked move can be applied, and brings the game closer to its end.
    proof fn lemma_pick_advances(&self, game: P)
        ensures
            self.spec_pick_move(game) is Ok ==> advances(game, self.spec_pick_move(game)->Ok_0),
    ;

    /// Picks a move at `game`.
    fn pick_move(&self, game: &P) -> (r: Result<M, SearchError>)
        ensures
            r == self.spec_pick_move(*game),
    ;
}

/// A player that leaves every decision to a move strategy.
pub struct DefaultPlayer<S> {
    pub move_strategy: S,
}

impl<S> DefaultPlayer<S> {
    /// A player that plays the moves that `move_strategy` chooses.
    pub fn new(move_strategy: S) -> (r: Self)
        ensures
            r.move_strategy == move_strategy,
    {
        DefaultPlayer { move_strategy }
    }
}

impl<P, M, S> Player<P, M> for DefaultPlayer<S> where
    P: Position<M>,
    M: Move,
    S: MoveStrategy<P, M>,
 {
    open spec fn spec_pick_move(&self, game: P) -> Result<M, SearchError> {
        self.move_strategy.spec_choose_move(game)
    }

    proof fn lemma_pick_advances(&self, game: P) {
        self.move_strategy.lemma_choice_advances(game);
    }

    fn pick_move(&self, game: &P) -> (r: Result<M, SearchError>) {
        self.move_strategy.choose_move(game)
    }
}

} // verus!
