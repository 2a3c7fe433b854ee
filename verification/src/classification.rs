//! Grading a played move by comparing the evaluation after it with the
//! evaluation of the best move available.

use vstd::prelude::*;
use crate::uci_info::UciEval;

verus! {

/// The grade of a played move, best to worst; `Miss` marks a forgone mate.
#[derive(Clone, Copy, Debug, PartialEq, Eq, Structural)]
pub enum MoveClassification {
    Best,
    Excellent,
    Good,
    Inaccuracy,
    Mistake,
    Miss,
    Blunder,
}

impl MoveClassification {
    /// The sprite-sheet column a front end shows this grade with.
    pub open spec fn spec_atlas_index(self) -> int {
        match self {
            MoveClassification::Best => 2,
            MoveClassification::Excellent => 3,
            MoveClassification::Good => 4,
            MoveClassification::Inaccuracy => 6,
            MoveClassification::Mistake => 7,
            MoveClassification::Blunder => 8,
            MoveClassification::Miss => 9,
        }
    }

    /// The sprite-sheet column a front end shows this grade with.
    pub fn to_atlas_index(&self) -> (r: usize)
        ensures
            r == self.spec_atlas_index(),
    {
        match self {
            MoveClassification::Best => 2,
            MoveClassification::Excellent => 3,
            MoveClassification::Good => 4,
            MoveClassification::Inaccuracy => 6,
            MoveClassification::Mistake => 7,
            MoveClassification::Blunder => 8,
            MoveClassification::Miss => 9,
        }
    }
}

/// The magnitude of `x`.
pub open spec fn spec_abs(x: int) -> int {
    if x < 0 {
        -x
    } else {
        x
    }
}

/// The sign of `x`: `-1`, `0` or `1`.
pub open spec fn spec_sign(x: int) -> int {
    if x > 0 {
        1int
    } else if x < 0 {
        -1int
    } else {
        0int
    }
}

/// The grade of a move whose position evaluates to `evaluation_after`
/// when the best move would have reached `evaluation_best`: graded by the
/// centipawns given up, `Miss` when an available mate was lost, `Blunder`
/// when the mate changed sides, and by the mate-distance slip when the
/// mating side kept its mate.
pub open spec fn spec_classify_move(
    evaluation_after: UciEval,
    evaluation_best: UciEval,
) -> MoveClassification {
    match (evaluation_after, evaluation_best) {
        (UciEval::Centipawn(eval_after), UciEval::Centipawn(eval_best)) => {
            let delta = spec_abs(eval_best - eval_after);
            if delta == 0 {
                MoveClassification::Best
            } else if delta <= 20 {
                MoveClassification::Excellent
            } else if delta <= 50 {
                MoveClassification::Good
            } else if delta <= 100 {
                MoveClassification::Inaccuracy
            } else if delta <= 300 {
                MoveClassification::Mistake
            } else {
                MoveClassification::Blunder
            }
        },
        (UciEval::Centipawn(_), UciEval::Mate(_)) => MoveClassification::Miss,
        (UciEval::Mate(_), UciEval::Centipawn(_)) => MoveClassification::Blunder,
        (UciEval::Mate(mate_after), UciEval::Mate(mate_best)) => {
            if spec_sign(mate_after as int) == spec_sign(mate_best as int) {
                let delta = spec_abs(mate_best - mate_after);
                if delta == 0 {
                    MoveClassification::Best
                } else if delta == 1 {
                    MoveClassification::Excellent
                } else {
                    MoveClassification::Good
                }
            } else {
                MoveClassification::Blunder
            }
        },
    }
}

/// Grade a played move against the best one available.
pub fn classify_move(evaluation_after: UciEval, evaluation_best: UciEval) -> (r:
    MoveClassification)
    ensures
        r == spec_classify_move(evaluation_after, evaluation_best),
{
    match (evaluation_after, evaluation_best) {
        (UciEval::Centipawn(eval_after), UciEval::Centipawn(eval_best)) => {
            let wide = eval_best as i64 - eval_after as i64;
            let delta = if wide < 0 {
                -wide
            } else {
                wide
            };
            if delta == 0 {
                MoveClassification::Best
            } else if delta <= 20 {
                MoveClassification::Excellent
            } else if delta <= 50 {
                MoveClassification::Good
            } else if delta <= 100 {
                MoveClassification::Inaccuracy
            } else if delta <= 300 {
                MoveClassification::Mistake
            } else {
                MoveClassification::Blunder
            }
        },
        (UciEval::Centipawn(_), UciEval::Mate(_)) => MoveClassification::Miss,
        (UciEval::Mate(_), UciEval::Centipawn(_)) => MoveClassification::Blunder,
        (UciEval::Mate(mate_after), UciEval::Mate(mate_best)) => {
            let same_side = (mate_after > 0 && mate_best > 0) || (mate_after < 0 && mate_best < 0)
                || (mate_after == 0 && mate_best == 0);
            if same_side {
                let wide = mate_best as i64 - mate_after as i64;
                let delta = if wide < 0 {
                    -wide
                } else {
                    wide
                };
                if delta == 0 {
                    MoveClassification::Best
                } else if delta == 1 {
                    MoveClassification::Excellent
                } else {
                    MoveClassification::Good
                }
            } else {
                MoveClassification::Blunder
            }
        },
    }
}

} // verus!
