use vstd::prelude::*;

verus! {

/// A move: a self-describing action, the acting side included.
pub trait Move: Copy {

}

/// The state of a game at one instant.
///
/// Applying a move never changes the position it is applied to: it yields a
/// new one.
pub trait Position<M>: Sized + Copy {
    /// An upper bound on the number of moves that can still be played from
    /// here; every move that a generator offers lowers it.
    spec fn plies_left(&self) -> nat;

    /// `m` can be applied to this position.
    spec fn can_apply(&self, m: M) -> bool;

    /// The position that `m` leads to.
    spec fn spec_apply(&self, m: M) -> Self;

    /// Composes `m` with this position into the position that follows.
    fn apply(&self, m: &M) -> (r: Self)
        requires
            self.can_apply(*m),
        ensures
            r == self.spec_apply(*m),
    ;
}

/// `m` can be applied to `p`, and brings the game closer to its end.
pub open spec fn advances<P: Position<M>, M>(p: P, m: M) -> bool {
    &&& p.can_apply(m)
    &&& p.spec_apply(m).plies_left() < p.plies_left()
}

/// Lists the legal moves of the side to move.
pub trait MoveGenerator<P: Position<M>, M: Move> {
    /// The legal moves at `game`, in the order in which they are tried.
    spec fn spec_moves(&self, game: P) -> Seq<M>;

    /// Every legal move brings the game closer to its end.
    proof fn lemma_moves_advance(&self, game: P)
        ensures
            forall|i: int|
                0 <= i < self.spec_moves(game).len() ==> advances(
                    game,
                    #[trigger] self.spec_moves(game)[i],
                ),
    ;

    /// Produces the legal moves at `game`.
    fn get_moves(&self, game: &P) -> (r: Vec<M>)
        ensures
            r@ == self.spec_moves(*game),
    ;
}

/// The authority on the flow of a game: whose turn it is, and whether play
/// is over.
pub trait Oracle<P: Position<M>, M: Move> {
    /// The side to move at `game`, where it can be told.
    spec fn spec_next_player(&self, game: P) -> Option<usize>;

    /// No further play should occur at `game`.
    spec fn spec_is_terminal(&self, game: P) -> bool;

    /// The index, 0 or 1, of the side to move; `None` where it cannot be
    /// told (as at a terminal position).
    fn next_player(&self, game: &P) -> (r: Option<usize>)
        ensures
            r == self.spec_next_player(*game),
    ;

    /// Whether play must stop at `game`.
    fn is_terminal(&self, game: &P) -> (r: bool)
        ensures
            r == self.spec_is_terminal(*game),
    ;
}

} // verus!
