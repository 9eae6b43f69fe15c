use std::marker::PhantomData;
use vstd::prelude::*;

use crate::evaluation::{lemma_order_by_level, PositionEvaluation, PositionEvaluator};
use crate::game::{advances, Move, MoveGenerator, Oracle, Position};
use crate::strategy::{never_stuck, MoveStrategy, SearchError};

verus! {

/// The value that any line improves on, for a side that maximizes or
/// minimizes.
pub open spec fn worst_for(maximizing: bool) -> PositionEvaluation {
    if maximizing {
        PositionEvaluation::Losing
    } else {
        PositionEvaluation::Winning
    }
}

/// `value` is strictly better than `best` for a side that maximizes or
/// minimizes.
pub open spec fn preferred(
    maximizing: bool,
    value: PositionEvaluation,
    best: PositionEvaluation,
) -> bool {
    if maximizing {
        value.better_than(best)
    } else {
        value.worse_than(best)
    }
}

/// Picks the move that is best against an opponent who also plays to their
/// own advantage: the levels of the search alternate between maximizing and
/// minimizing, while leaves are always scored from the strategy's own side.
pub struct MinimaxMoveStrategy<P, M, E, G, O> {
    pub phantom_game: PhantomData<P>,
    pub phantom_move: PhantomData<M>,
    pub position_evaluator: E,
    pub move_generator: G,
    pub oracle: O,
}

impl<P, M, E, G, O> MinimaxMoveStrategy<P, M, E, G, O> where
    P: Position<M>,
    M: Move,
    E: PositionEvaluator<P, M>,
    G: MoveGenerator<P, M>,
    O: Oracle<P, M>,
 {
    /// A strategy that scores leaves with `position_evaluator`, enumerates
    /// moves with `move_generator` and tells leaves with `oracle`.
    pub fn new(position_evaluator: E, move_generator: G, oracle: O) -> (r: Self)
        ensures
            r.position_evaluator == position_evaluator,
            r.move_generator == move_generator,
            r.oracle == oracle,
    {
        MinimaxMoveStrategy {
            phantom_game: PhantomData,
            phantom_move: PhantomData,
            position_evaluator,
            move_generator,
            oracle,
        }
    }

    /// The outcome of the search at `game`, where the side to move
    /// maximizes or minimizes: `None` at a terminal position, else the best
    /// move for that side and the value of its line.
    pub open spec fn search(&self, game: P, maximizing: bool) -> Result<
        Option<(M, PositionEvaluation)>,
        SearchError,
    >
        decreases game.plies_left(), self.move_generator.spec_moves(game).len() + 1,
    {
        if self.oracle.spec_is_terminal(game) {
            Ok(None)
        } else if self.move_generator.spec_moves(game).len() == 0 {
            Err(SearchError::NoLegalMoves)
        } else {
            match self.scan(game, maximizing, self.move_generator.spec_moves(game).len()) {
                Ok(best) => Ok(Some(best)),
                Err(e) => Err(e),
            }
        }
    }

    /// The best of the first `n` legal moves at `game` and the value of its
    /// line, for a side that maximizes or minimizes; an earlier move is
    /// replaced only by a strictly better one.
    pub open spec fn scan(&self, game: P, maximizing: bool, n: nat) -> Result<
        (M, PositionEvaluation),
        SearchError,
    >
        decreases game.plies_left(), n,
    {
        let moves = self.move_generator.spec_moves(game);
        // the scan starts from the first move; no longer prefix than the
        // list is ever asked for
        if n == 0 || n > moves.len() {
            Ok((moves[0], worst_for(maximizing)))
        } else {
            match self.scan(game, maximizing, (n - 1) as nat) {
                Err(e) => Err(e),
                Ok((best_move, best)) => {
                    proof {
                        self.move_generator.lemma_moves_advance(game);
                        assert(advances(game, moves[n - 1]));
                    }
                    match self.line_value(game.spec_apply(moves[n - 1]), !maximizing) {
                        Err(e) => Err(e),
                        Ok(value) => if preferred(maximizing, value, best) {
                            Ok((moves[n - 1], value))
                        } else {
                            Ok((best_move, best))
                        },
                    }
                },
            }
        }
    }

    /// The value of the line that reaches `game`, where the side to move
    /// maximizes or minimizes: the evaluator's verdict at a terminal
    /// position, else the value of that side's best move's line.
    pub open spec fn line_value(&self, game: P, maximizing: bool) -> Result<
        PositionEvaluation,
        SearchError,
    >
        decreases game.plies_left(), self.move_generator.spec_moves(game).len() + 2,
    {
        match self.search(game, maximizing) {
            Ok(None) => Ok(self.position_evaluator.spec_evaluate(game)),
            Ok(Some((_, value))) => Ok(value),
            Err(e) => Err(e),
        }
    }

    /// The value of the line that starts with the `j`-th legal move at
    /// `game`, where the side to move at `game` maximizes or minimizes.
    pub open spec fn child_value(&self, game: P, maximizing: bool, j: int) -> Result<
        PositionEvaluation,
        SearchError,
    > {
        self.line_value(game.spec_apply(self.move_generator.spec_moves(game)[j]), !maximizing)
    }

    /// The scan of the first `n` moves fails exactly when one of their lines
    /// fails; else it keeps the first of them whose line is best for the
    /// side to move, with the value of that line.
    pub proof fn lemma_scan_keeps_first_best(&self, game: P, maximizing: bool, n: nat)
        requires
            1 <= n <= self.move_generator.spec_moves(game).len(),
        ensures
            self.scan(game, maximizing, n) is Ok <==> forall|j: int|
                0 <= j < n ==> (#[trigger] self.child_value(game, maximizing, j)) is Ok,
            self.scan(game, maximizing, n) is Ok ==> exists|i: int|
                {
                    &&& 0 <= i < n
                    &&& self.move_generator.spec_moves(game)[i] == self.scan(
                        game,
                        maximizing,
                        n,
                    )->Ok_0.0
                    &&& #[trigger] self.child_value(game, maximizing, i) == Ok::<
                        PositionEvaluation,
                        SearchError,
                    >(self.scan(game, maximizing, n)->Ok_0.1)
                    &&& forall|j: int|
                        0 <= j < i ==> preferred(
                            maximizing,
                            self.scan(game, maximizing, n)->Ok_0.1,
                            (#[trigger] self.child_value(game, maximizing, j))->Ok_0,
                        )
                    &&& forall|j: int|
                        0 <= j < n ==> !preferred(
                            maximizing,
                            (#[trigger] self.child_value(game, maximizing, j))->Ok_0,
                            self.scan(game, maximizing, n)->Ok_0.1,
                        )
                },
        decreases n,
    {
        let moves = self.move_generator.spec_moves(game);
        let k = n - 1;
        if n > 1 {
            self.lemma_scan_keeps_first_best(game, maximizing, (n - 1) as nat);
        }
        let earlier = self.scan(game, maximizing, (n - 1) as nat);
        let value = self.child_value(game, maximizing, k);
        if earlier is Ok && value is Ok {
            let (best_move, best) = earlier->Ok_0;
            let v = value->Ok_0;
            lemma_order_by_level(v, best);
            lemma_order_by_level(best, v);
            let e = self.scan(game, maximizing, n)->Ok_0.1;
            if n == 1 {
                lemma_order_by_level(v, v);
                assert(self.scan(game, maximizing, n) == Ok::<(M, PositionEvaluation), SearchError>(
                    (moves[0], v),
                ));
                assert(self.child_value(game, maximizing, 0) == Ok::<
                    PositionEvaluation,
                    SearchError,
                >(e));
            } else if preferred(maximizing, v, best) {
                assert forall|j: int| 0 <= j < k implies preferred(
                    maximizing,
                    v,
                    (#[trigger] self.child_value(game, maximizing, j))->Ok_0,
                ) by {
                    let c = self.child_value(game, maximizing, j)->Ok_0;
                    lemma_order_by_level(c, best);
                    lemma_order_by_level(best, c);
                    lemma_order_by_level(c, v);
                    lemma_order_by_level(v, c);
                }
                assert forall|j: int| 0 <= j < n implies !preferred(
                    maximizing,
                    (#[trigger] self.child_value(game, maximizing, j))->Ok_0,
                    v,
                ) by {
                    let c = self.child_value(game, maximizing, j)->Ok_0;
                    lemma_order_by_level(c, best);
                    lemma_order_by_level(best, c);
                    lemma_order_by_level(c, v);
                    lemma_order_by_level(v, c);
                }
                assert(self.child_value(game, maximizing, k) == Ok::<
                    PositionEvaluation,
                    SearchError,
                >(e));
            } else {
                let i = choose|i: int|
                    {
                        &&& 0 <= i < k
                        &&& moves[i] == best_move
                        &&& #[trigger] self.child_value(game, maximizing, i) == Ok::<
                            PositionEvaluation,
                            SearchError,
                        >(best)
                        &&& forall|j: int|
                            0 <= j < i ==> preferred(
                                maximizing,
                                best,
                                (#[trigger] self.child_value(game, maximizing, j))->Ok_0,
                            )
                        &&& forall|j: int|
                            0 <= j < k ==> !preferred(
                                maximizing,
                                (#[trigger] self.child_value(game, maximizing, j))->Ok_0,
                                best,
                            )
                    };
                assert(self.child_value(game, maximizing, i) == Ok::<
                    PositionEvaluation,
                    SearchError,
                >(e));
            }
        } else if earlier is Err {
            self.lemma_scan_error_persists(game, maximizing, (n - 1) as nat, n);
        }
    }

    /// Where play goes on and every legal move's line has a value, the
    /// strategy chooses the first legal move whose line has the greatest
    /// value, the replies being valued as the opponent's best: ties go to
    /// the move that the generator lists first.
    pub proof fn lemma_choice_is_first_best(&self, game: P, i: int)
        requires
            !self.oracle.spec_is_terminal(game),
            0 <= i < self.move_generator.spec_moves(game).len(),
            forall|j: int|
                0 <= j < self.move_generator.spec_moves(game).len() ==> (#[trigger] self.child_value(
                    game,
                    true,
                    j,
                )) is Ok,
            forall|j: int|
                0 <= j < self.move_generator.spec_moves(game).len() ==> !(#[trigger] self.child_value(
                    game,
                    true,
                    j,
                ))->Ok_0.better_than(self.child_value(game, true, i)->Ok_0),
            forall|j: int|
                0 <= j < i ==> (#[trigger] self.child_value(game, true, j))->Ok_0.worse_than(
                    self.child_value(game, true, i)->Ok_0,
                ),
        ensures
            self.spec_choose_move(game) == Ok::<M, SearchError>(
                self.move_generator.spec_moves(game)[i],
            ),
    {
        let moves = self.move_generator.spec_moves(game);
        self.lemma_scan_keeps_first_best(game, true, moves.len());
        let e = self.scan(game, true, moves.len())->Ok_0.1;
        let k = choose|k: int|
            {
                &&& 0 <= k < moves.len()
                &&& moves[k] == self.scan(game, true, moves.len())->Ok_0.0
                &&& #[trigger] self.child_value(game, true, k) == Ok::<
                    PositionEvaluation,
                    SearchError,
                >(e)
                &&& forall|j: int|
                    0 <= j < k ==> preferred(
                        true,
                        e,
                        (#[trigger] self.child_value(game, true, j))->Ok_0,
                    )
                &&& forall|j: int|
                    0 <= j < moves.len() ==> !preferred(
                        true,
                        (#[trigger] self.child_value(game, true, j))->Ok_0,
                        e,
                    )
            };
        let v = self.child_value(game, true, i)->Ok_0;
        lemma_order_by_level(v, e);
        lemma_order_by_level(e, v);
        assert(!preferred(true, v, e));
        assert(v == e);
        if k < i {
            assert(self.child_value(game, true, k)->Ok_0.worse_than(v));
        } else if i < k {
            assert(preferred(true, e, self.child_value(game, true, i)->Ok_0));
        }
    }

    /// Where play goes on, every legal move's line has a value, and the
    /// `i`-th legal move is the first whose line is `Winning`, the strategy
    /// takes that move.
    pub proof fn lemma_takes_first_win(&self, game: P, i: int)
        requires
            !self.oracle.spec_is_terminal(game),
            0 <= i < self.move_generator.spec_moves(game).len(),
            forall|j: int|
                0 <= j < self.move_generator.spec_moves(game).len() ==> (#[trigger] self.child_value(
                    game,
                    true, j,
                )) is Ok,
            self.child_value(game, true, i) == Ok::<PositionEvaluation, SearchError>(
                PositionEvaluation::Winning,
            ),
            forall|j: int|
                0 <= j < i ==> (#[trigger] self.child_value(game, true, j))->Ok_0
                    != PositionEvaluation::Winning,
        ensures
            self.spec_choose_move(game) == Ok::<M, SearchError>(
                self.move_generator.spec_moves(game)[i],
            ),
    {
        assert forall|j: int| 0 <= j < self.move_generator.spec_moves(game).len() implies !(
        #[trigger] self.child_value(game, true, j))->Ok_0.better_than(PositionEvaluation::Winning) by {
            lemma_order_by_level(self.child_value(game, true, j)->Ok_0, PositionEvaluation::Winning);
        }
        assert forall|j: int| 0 <= j < i implies (#[trigger] self.child_value(
            game,
            true, j,
        ))->Ok_0.worse_than(PositionEvaluation::Winning) by {
            lemma_order_by_level(self.child_value(game, true, j)->Ok_0, PositionEvaluation::Winning);
        }
        self.lemma_choice_is_first_best(game, i);
    }

    /// Where play never gets stuck, every line has a value, whichever side
    /// is to move.
    proof fn lemma_line_has_value(&self, game: P, maximizing: bool)
        requires
            never_stuck::<P, M, G, O>(self.move_generator, self.oracle, game),
        ensures
            self.line_value(game, maximizing) is Ok,
        decreases game.plies_left(),
    {
        if !self.oracle.spec_is_terminal(game) {
            let moves = self.move_generator.spec_moves(game);
            self.move_generator.lemma_moves_advance(game);
            assert forall|j: int| 0 <= j < moves.len() implies (#[trigger] self.child_value(
                game,
                maximizing,
                j,
            )) is Ok by {
                assert(advances(game, moves[j]));
                self.lemma_line_has_value(game.spec_apply(moves[j]), !maximizing);
            }
            self.lemma_scan_keeps_first_best(game, maximizing, moves.len());
        }
    }

    /// Where play goes on and never reaches a live position without a legal
    /// move, the search succeeds: a move is chosen.
    pub proof fn lemma_search_succeeds(&self, game: P)
        requires
            !self.oracle.spec_is_terminal(game),
            never_stuck::<P, M, G, O>(self.move_generator, self.oracle, game),
        ensures
            self.spec_choose_move(game) is Ok,
    {
        self.lemma_line_has_value(game, true);
    }

    /// Where play goes on but the generator offers no move, the strategy
    /// fails with `NoLegalMoves` rather than make up a move.
    pub proof fn lemma_no_legal_moves_is_fatal(&self, game: P)
        requires
            !self.oracle.spec_is_terminal(game),
            self.move_generator.spec_moves(game).len() == 0,
        ensures
            self.spec_choose_move(game) == Err::<M, SearchError>(SearchError::NoLegalMoves),
    {
    }

    /// The choice depends on the position and on the evaluator, generator
    /// and oracle alone: strategies built alike choose alike.
    pub proof fn lemma_choice_is_deterministic(s1: &Self, s2: &Self, game: P)
        requires
            s1.position_evaluator == s2.position_evaluator,
            s1.move_generator == s2.move_generator,
            s1.oracle == s2.oracle,
        ensures
            s1.spec_choose_move(game) == s2.spec_choose_move(game),
    {
        assert(s1 == s2);
    }

    /// Once the scan has failed, it fails on every longer prefix.
    proof fn lemma_scan_error_persists(&self, game: P, maximizing: bool, n: nat, k: nat)
        requires
            n <= k <= self.move_generator.spec_moves(game).len(),
            self.scan(game, maximizing, n) is Err,
        ensures
            self.scan(game, maximizing, k) == self.scan(game, maximizing, n),
        decreases k - n,
    {
        if n < k {
            self.lemma_scan_error_persists(game, maximizing, n, (k - 1) as nat);
        }
    }

    /// The move that the scan keeps is one of the legal moves.
    proof fn lemma_scan_keeps_legal_move(&self, game: P, maximizing: bool, n: nat)
        requires
            0 < self.move_generator.spec_moves(game).len(),
            n <= self.move_generator.spec_moves(game).len(),
            self.scan(game, maximizing, n) is Ok,
        ensures
            exists|i: int|
                0 <= i < self.move_generator.spec_moves(game).len()
                    && #[trigger] self.move_generator.spec_moves(game)[i] == self.scan(
                    game,
                    maximizing,
                    n,
                )->Ok_0.0,
        decreases n,
    {
        let moves = self.move_generator.spec_moves(game);
        if n == 0 {
            assert(moves[0] == self.scan(game, maximizing, n)->Ok_0.0);
        } else {
            self.lemma_scan_keeps_legal_move(game, maximizing, (n - 1) as nat);
            if self.scan(game, maximizing, n)->Ok_0.0 == moves[n - 1] {
                assert(moves[n - 1] == self.scan(game, maximizing, n)->Ok_0.0);
            }
        }
    }

    fn choose_move_recursive(&self, game: &P, maximizing_player: bool) -> (r: Result<
        Option<(M, PositionEvaluation)>,
        SearchError,
    >)
        ensures
            r == self.search(*game, maximizing_player),
        decreases game.plies_left(),
    {
        if self.oracle.is_terminal(game) {
            return Ok(None);
        }
        let moves = self.move_generator.get_moves(game);
        proof {
            self.move_generator.lemma_moves_advance(*game);
        }
        if moves.len() == 0 {
            return Err(SearchError::NoLegalMoves);
        }
        let mut best_move = moves[0];
        let mut best_position_evaluation = if maximizing_player {
            PositionEvaluation::Losing
        } else {
            PositionEvaluation::Winning
        };
        let mut i: usize = 0;
        while i < moves.len()
            invariant
                0 <= i <= moves.len(),
                moves@ == self.move_generator.spec_moves(*game),
                moves.len() > 0,
                !self.oracle.spec_is_terminal(*game),
                forall|j: int| 0 <= j < moves.len() ==> advances(*game, #[trigger] moves@[j]),
                self.scan(*game, maximizing_player, i as nat) == Ok::<(M, PositionEvaluation), SearchError>(
                    (best_move, best_position_evaluation),
                ),
            decreases moves.len() - i,
        {
            let m = moves[i];
            assert(advances(*game, moves@[i as int]));
            let new_position = game.apply(&m);
            let new_position_evaluation = match self.choose_move_recursive(
                &new_position,
                !maximizing_player,
            ) {
                Err(e) => {
                    proof {
                        assert(self.line_value(new_position, !maximizing_player) == Err::<
                            PositionEvaluation,
                            SearchError,
                        >(e));
                        self.lemma_scan_error_persists(
                            *game,
                            maximizing_player,
                            (i + 1) as nat,
                            moves.len() as nat,
                        );
                    }
                    return Err(e);
                },
                Ok(None) => self.position_evaluator.evaluate(&new_position),
                Ok(Some((_, recursive_evaluation))) => recursive_evaluation,
            };
            assert(self.line_value(new_position, !maximizing_player) == Ok::<
                PositionEvaluation,
                SearchError,
            >(new_position_evaluation));
            if maximizing_player && new_position_evaluation > best_position_evaluation {
                best_position_evaluation = new_position_evaluation;
                best_move = m;
            } else if !maximizing_player && new_position_evaluation < best_position_evaluation {
                best_position_evaluation = new_position_evaluation;
                best_move = m;
            }
            i = i + 1;
        }
        Ok(Some((best_move, best_position_evaluation)))
    }
}

impl<P, M, E, G, O> MoveStrategy<P, M> for MinimaxMoveStrategy<P, M, E, G, O> where
    P: Position<M>,
    M: Move,
    E: PositionEvaluator<P, M>,
    G: MoveGenerator<P, M>,
    O: Oracle<P, M>,
 {
    open spec fn spec_choose_move(&self, game: P) -> Result<M, SearchError> {
        match self.search(game, true) {
            Ok(Some((best_move, _))) => Ok(best_move),
            Ok(None) => Err(SearchError::TerminalPosition),
            Err(e) => Err(e),
        }
    }

    proof fn lemma_choice_advances(&self, game: P) {
        if self.spec_choose_move(game) is Ok {
            let moves = self.move_generator.spec_moves(game);
            self.lemma_scan_keeps_legal_move(game, true, moves.len());
            self.move_generator.lemma_moves_advance(game);
            let i = choose|i: int|
                0 <= i < moves.len() && #[trigger] moves[i] == self.scan(
                    game,
                    true,
                    moves.len(),
                )->Ok_0.0;
            assert(advances(game, moves[i]));
        }
    }

    fn choose_move(&self, game: &P) -> (r: Result<M, SearchError>) {
        match self.choose_move_recursive(game, true) {
            Ok(Some((best_move, _))) => Ok(best_move),
            Ok(None) => Err(SearchError::TerminalPosition),
            Err(e) => Err(e),
        }
    }
}

} // verus!
