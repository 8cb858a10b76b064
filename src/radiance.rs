use vstd::prelude::*;

verus! {

/// What one bounce of a path met: the ray left the scene, the material
/// absorbed it, or the material scattered it into a new ray.
#[derive(Clone, Copy, Debug, PartialEq, Eq, Structural)]
pub enum Outcome {
    Escaped,
    Absorbed,
    Scattered,
}

/// What the radiance estimator does next: return black, return the sky
/// colour of the current ray scaled by the attenuation so far, or multiply
/// the attenuation by the material's and follow the scattered ray.
#[derive(Clone, Copy, Debug, PartialEq, Eq, Structural)]
pub enum Step {
    Black,
    Sky,
    Bounce,
}

/// The step taken on `outcome` while bounces are left.
pub open spec fn step_of(outcome: Outcome) -> Step {
    match outcome {
        Outcome::Escaped => Step::Sky,
        Outcome::Absorbed => Step::Black,
        Outcome::Scattered => Step::Bounce,
    }
}

/// How a path with `budget` bounces ends when its rays meet `outcomes` in
/// turn: the number of bounces it takes, and whether it ends in the sky
/// (`true`) or black (`false`). A path that runs out of budget, or of
/// outcomes, ends black.
pub open spec fn path_end(budget: nat, outcomes: Seq<Outcome>) -> (nat, bool)
    decreases budget,
{
    if budget == 0 || outcomes.len() == 0 {
        (0, false)
    } else {
        match step_of(outcomes[0]) {
            Step::Sky => (0, true),
            Step::Black => (0, false),
            Step::Bounce => {
                let rest = path_end((budget - 1) as nat, outcomes.drop_first());
                (rest.0 + 1, rest.1)
            },
        }
    }
}

/// The bounce budget of one path of the radiance estimator.
pub struct PathState {
    bounces_left: u32,
}

impl PathState {
    /// Bounces the path may still take.
    pub closed spec fn left(&self) -> nat {
        self.bounces_left as nat
    }

    /// A path that may take at most `max_bounces` bounces.
    pub fn new(max_bounces: u32) -> (r: PathState)
        ensures
            r.left() == max_bounces,
    {
        PathState { bounces_left: max_bounces }
    }

    /// Bounces the path may still take.
    pub fn bounces_left(&self) -> (r: u32)
        ensures
            r == self.left(),
    {
        self.bounces_left
    }

    /// Whether the budget is spent; the estimator then returns black without
    /// looking at the scene.
    pub fn exhausted(&self) -> (r: bool)
        ensures
            r == (self.left() == 0),
            r ==> forall|outcomes: Seq<Outcome>| #[trigger] path_end(self.left(), outcomes) == (0nat, false),
    {
        self.bounces_left == 0
    }

    /// The step the estimator takes on `outcome`; a bounce spends one unit
    /// of the budget.
    pub fn advance(&mut self, outcome: Outcome) -> (r: Step)
        requires
            old(self).left() > 0,
        ensures
            r == step_of(outcome),
            final(self).left() == if r == Step::Bounce {
                (old(self).left() - 1) as nat
            } else {
                old(self).left()
            },
            forall|rest: Seq<Outcome>| #[trigger] path_end(old(self).left(), seq![outcome] + rest) == match r {
                Step::Sky => (0nat, true),
                Step::Black => (0nat, false),
                Step::Bounce => (path_end(final(self).left(), rest).0 + 1, path_end(final(self).left(), rest).1),
            },
    {
        proof {
            assert forall|rest: Seq<Outcome>| (seq![outcome] + rest).drop_first() == rest by {
                assert((seq![outcome] + rest).drop_first() =~= rest);
            }
        }
        match outcome {
            Outcome::Escaped => Step::Sky,
            Outcome::Absorbed => Step::Black,
            Outcome::Scattered => {
                self.bounces_left = self.bounces_left - 1;
                Step::Bounce
            },
        }
    }
}

/// With a bounce budget of zero a path is black, whatever its rays meet.
pub proof fn lemma_zero_budget_is_black(outcomes: Seq<Outcome>)
    ensures
        path_end(0, outcomes) == (0nat, false),
{
}

/// A path never takes more bounces than its budget.
pub proof fn lemma_bounces_within_budget(budget: nat, outcomes: Seq<Outcome>)
    ensures
        path_end(budget, outcomes).0 <= budget,
    decreases budget,
{
    if budget > 0 && outcomes.len() > 0 {
        lemma_bounces_within_budget((budget - 1) as nat, outcomes.drop_first());
    }
}

} // verus!
