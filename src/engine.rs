use vstd::prelude::*;

use crate::game::{Move, Oracle, Position};
use crate::player::Player;
use crate::strategy::SearchError;

verus! {

/// Plays a game out: asks the oracle whose turn it is, lets that player pick
/// a move, applies it and records it, until the oracle calls the position
/// terminal.
pub struct GameEngine<P, M, PL, O> {
    /// The position that play started from.
    pub initial_game_state: P,
    /// The moves applied so far, in order; a record only.
    pub moves: Vec<M>,
    /// The position reached.
    pub current_game_state: P,
    /// The player with index 0.
    pub player_0: PL,
    /// The player with index 1.
    pub player_1: PL,
    pub oracle: O,
}

/// How playing on from a position ends: the position where play stopped,
/// the moves played to reach it, and whether a player failed to move.
pub struct Playout<P, M> {
    pub last: P,
    pub history: Seq<M>,
    pub result: Result<(), SearchError>,
}

impl<P, M, PL, O> GameEngine<P, M, PL, O> where
    P: Position<M>,
    M: Move,
    PL: Player<P, M>,
    O: Oracle<P, M>,
 {
    /// An engine about to play from `initial_game_state`, with no move made.
    pub fn new(initial_game_state: P, player1: PL, player2: PL, oracle: O) -> (r: Self)
        ensures
            r.initial_game_state == initial_game_state,
            r.current_game_state == initial_game_state,
            r.moves@ == Seq::<M>::empty(),
            r.player_0 == player1,
            r.player_1 == player2,
            r.oracle == oracle,
    {
        GameEngine {
            initial_game_state,
            moves: vec![],
            current_game_state: initial_game_state,
            player_0: player1,
            player_1: player2,
            oracle,
        }
    }

    /// The move that the player whose turn it is picks at `game`; `None`
    /// where the oracle cannot tell whose turn it is.
    pub open spec fn spec_turn(&self, game: P) -> Option<Result<M, SearchError>> {
        match self.oracle.spec_next_player(game) {
            Some(0) => Some(self.player_0.spec_pick_move(game)),
            Some(1) => Some(self.player_1.spec_pick_move(game)),
            _ => None,
        }
    }

    /// Play from `game` on: it stops at a terminal position, where no player
    /// is to move, or where the player to move fails.
    pub open spec fn playout(&self, game: P) -> Playout<P, M>
        decreases game.plies_left(),
    {
        if self.oracle.spec_is_terminal(game) {
            Playout { last: game, history: Seq::empty(), result: Ok(()) }
        } else {
            match self.spec_turn(game) {
                None => Playout { last: game, history: Seq::empty(), result: Ok(()) },
                Some(Err(e)) => Playout { last: game, history: Seq::empty(), result: Err(e) },
                Some(Ok(m)) => {
                    proof {
                        self.player_0.lemma_pick_advances(game);
                        self.player_1.lemma_pick_advances(game);
                    }
                    let rest = self.playout(game.spec_apply(m));
                    Playout { last: rest.last, history: seq![m].add(rest.history), result: rest.result }
                },
            }
        }
    }

    /// Play depends on the starting position, the players and the oracle
    /// alone: engines built alike play the same moves to the same end.
    pub proof fn lemma_playout_is_deterministic(e1: &Self, e2: &Self, game: P)
        requires
            e1.player_0 == e2.player_0,
            e1.player_1 == e2.player_1,
            e1.oracle == e2.oracle,
        ensures
            e1.playout(game) == e2.playout(game),
        decreases game.plies_left(),
    {
        if !e1.oracle.spec_is_terminal(game) {
            if let Some(Ok(m)) = e1.spec_turn(game) {
                e1.player_0.lemma_pick_advances(game);
                e1.player_1.lemma_pick_advances(game);
                Self::lemma_playout_is_deterministic(e1, e2, game.spec_apply(m));
            }
        }
    }

    /// Plays on from the current position until play stops, and appends the
    /// moves played to the record.
    pub fn run(&mut self) -> (r: Result<(), SearchError>)
        ensures
            final(self).initial_game_state == old(self).initial_game_state,
            final(self).player_0 == old(self).player_0,
            final(self).player_1 == old(self).player_1,
            final(self).oracle == old(self).oracle,
            final(self).current_game_state == old(self).playout(
                old(self).current_game_state,
            ).last,
            final(self).moves@ == old(self).moves@ + old(self).playout(
                old(self).current_game_state,
            ).history,
            r == old(self).playout(old(self).current_game_state).result,
    {
        let ghost start = self.current_game_state;
        let ghost whole = self.playout(start);
        while !self.oracle.is_terminal(&self.current_game_state)
            invariant
                self.initial_game_state == old(self).initial_game_state,
                self.player_0 == old(self).player_0,
                self.player_1 == old(self).player_1,
                self.oracle == old(self).oracle,
                whole == old(self).playout(old(self).current_game_state),
                old(self).playout(self.current_game_state).last == whole.last,
                old(self).playout(self.current_game_state).result == whole.result,
                self.moves@ + old(self).playout(self.current_game_state).history == old(
                    self,
                ).moves@ + whole.history,
            decreases self.current_game_state.plies_left(),
        {
            let ghost game = self.current_game_state;
            let picked = match self.oracle.next_player(&self.current_game_state) {
                Some(0) => self.player_0.pick_move(&self.current_game_state),
                Some(1) => self.player_1.pick_move(&self.current_game_state),
                _ => {
                    return Ok(());
                },
            };
            let next_move = match picked {
                Ok(m) => m,
                Err(e) => {
                    return Err(e);
                },
            };
            proof {
                self.player_0.lemma_pick_advances(game);
                self.player_1.lemma_pick_advances(game);
            }
            self.current_game_state = self.current_game_state.apply(&next_move);
            self.moves.push(next_move);
            proof {
                let rest = old(self).playout(self.current_game_state);
                assert(old(self).playout(game).history == seq![next_move].add(rest.history));
                assert(self.moves@ + rest.history =~= self.moves@.drop_last() + seq![next_move].add(
                    rest.history,
                ));
            }
        }
        Ok(())
    }
}

} // verus!
