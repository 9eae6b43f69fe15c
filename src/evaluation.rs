use std::cmp::Ordering;
use vstd::prelude::*;

use crate::game::{Move, Position};

verus! {

/// What a position is worth to one side.
///
/// `Winning` is above every other evaluation, `Losing` below every other one,
/// and two estimates compare by their numeric advantage.
#[derive(Clone, Copy, Debug, PartialEq, Eq, Structural)]
pub enum PositionEvaluation {
    /// The side has already won, or can force a win.
    Winning,
    /// The opposing side has already won, or can force a win.
    Losing,
    /// Neither is settled: a numeric advantage, positive in the side's favour.
    Estimate(i64),
}

impl PositionEvaluation {
    /// The order of evaluations.
    pub open spec fn spec_compare(self, other: Self) -> Ordering {
        match (self, other) {
            (PositionEvaluation::Winning, PositionEvaluation::Winning) => Ordering::Equal,
            (PositionEvaluation::Winning, _) => Ordering::Greater,
            (_, PositionEvaluation::Winning) => Ordering::Less,
            (PositionEvaluation::Losing, PositionEvaluation::Losing) => Ordering::Equal,
            (PositionEvaluation::Losing, _) => Ordering::Less,
            (_, PositionEvaluation::Losing) => Ordering::Greater,
            (PositionEvaluation::Estimate(x), PositionEvaluation::Estimate(y)) => {
                if x < y {
                    Ordering::Less
                } else if x == y {
                    Ordering::Equal
                } else {
                    Ordering::Greater
                }
            },
        }
    }

    /// `self` lies strictly above `other`.
    pub open spec fn better_than(self, other: Self) -> bool {
        self.spec_compare(other) == Ordering::Greater
    }

    /// `self` lies strictly below `other`.
    pub open spec fn worse_than(self, other: Self) -> bool {
        self.spec_compare(other) == Ordering::Less
    }

    /// The place of an evaluation on the integer line: estimates at their
    /// value, `Winning` above and `Losing` below every one of them.
    pub open spec fn level(self) -> int {
        match self {
            PositionEvaluation::Winning => i64::MAX + 1,
            PositionEvaluation::Losing => i64::MIN - 1,
            PositionEvaluation::Estimate(x) => x as int,
        }
    }
}

/// The order of evaluations is the order of their levels, and two
/// evaluations at one level are the same: the order is total.
pub proof fn lemma_order_by_level(a: PositionEvaluation, b: PositionEvaluation)
    ensures
        a.worse_than(b) <==> a.level() < b.level(),
        a.better_than(b) <==> a.level() > b.level(),
        a.spec_compare(b) == Ordering::Equal <==> a == b,
        a.level() == b.level() <==> a == b,
        a.worse_than(b) <==> b.better_than(a),
{
}

/// Estimates compare by their values, every estimate lies between `Losing`
/// and `Winning`, and `Winning` and `Losing` each equal themselves.
pub proof fn lemma_order_of_shapes(x: i64, y: i64)
    requires
        x < y,
    ensures
        PositionEvaluation::Estimate(x).worse_than(PositionEvaluation::Estimate(y)),
        PositionEvaluation::Estimate(y).worse_than(PositionEvaluation::Winning),
        PositionEvaluation::Losing.worse_than(PositionEvaluation::Estimate(x)),
        PositionEvaluation::Winning.spec_compare(PositionEvaluation::Winning) == Ordering::Equal,
        PositionEvaluation::Losing.spec_compare(PositionEvaluation::Losing) == Ordering::Equal,
{
}

/// The order is a strict total order: exactly one of below, equal and
/// above holds of any two evaluations, and it is transitive.
pub proof fn lemma_order_is_strict_total(
    a: PositionEvaluation,
    b: PositionEvaluation,
    c: PositionEvaluation,
)
    ensures
        a.worse_than(b) || a == b || a.better_than(b),
        !(a.worse_than(b) && a == b),
        !(a.better_than(b) && a == b),
        !(a.worse_than(b) && a.better_than(b)),
        a.worse_than(b) && b.worse_than(c) ==> a.worse_than(c),
{
    lemma_order_by_level(a, b);
    lemma_order_by_level(b, c);
    lemma_order_by_level(a, c);
}

impl PartialOrd for PositionEvaluation {
    fn partial_cmp(&self, other: &PositionEvaluation) -> (r: Option<Ordering>)
        ensures
            r == Some(self.spec_compare(*other)),
    {
        match (self, other) {
            (PositionEvaluation::Winning, PositionEvaluation::Winning) => Some(Ordering::Equal),
            (PositionEvaluation::Winning, _) => Some(Ordering::Greater),
            (_, PositionEvaluation::Winning) => Some(Ordering::Less),
            (PositionEvaluation::Losing, PositionEvaluation::Losing) => Some(Ordering::Equal),
            (PositionEvaluation::Losing, _) => Some(Ordering::Less),
            (_, PositionEvaluation::Losing) => Some(Ordering::Greater),
            (PositionEvaluation::Estimate(x), PositionEvaluation::Estimate(y)) => {
                if *x < *y {
                    Some(Ordering::Less)
                } else if *x == *y {
                    Some(Ordering::Equal)
                } else {
                    Some(Ordering::Greater)
                }
            },
        }
    }
}

impl vstd::std_specs::cmp::PartialOrdSpecImpl for PositionEvaluation {
    open spec fn obeys_partial_cmp_spec() -> bool {
        true
    }

    open spec fn partial_cmp_spec(&self, other: &PositionEvaluation) -> Option<Ordering> {
        Some(self.spec_compare(*other))
    }
}

/// Scores a single position from one side's point of view, without looking
/// ahead at the positions that follow it.
pub trait PositionEvaluator<P: Position<M>, M: Move> {
    /// The evaluation of `position`.
    spec fn spec_evaluate(&self, position: P) -> PositionEvaluation;

    /// Judges only the features already present in `position`.
    fn evaluate(&self, position: &P) -> (r: PositionEvaluation)
        ensures
            r == self.spec_evaluate(*position),
    ;
}

} // verus!
