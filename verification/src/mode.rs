use vstd::prelude::*;

verus! {

/// How a particle's next velocity is computed.
#[derive(Clone, Copy, Debug, PartialEq, Eq, Structural)]
pub enum VelocityRule {
    /// The textbook rule: inertia plus two uniformly weighted pulls.
    Classic,
    /// The rotation-invariant rule that samples inside hyper-ellipsoids.
    SelfAdaptive,
}

/// What a finished run hands back.
#[derive(Clone, Copy, Debug, PartialEq, Eq, Structural)]
pub enum OutputKind {
    /// Nothing but the fact that the run completed.
    Nothing,
    /// The best position found and its fitness.
    BestOne,
    /// The whole swarm.
    Swarm,
}

/// The behaviour switches of a run.
#[derive(Clone, Copy, Debug)]
pub struct Mode {
    /// Whether to draw the swarm's fitness every `max_gen / 5` generations,
    /// plus once for the final generation.
    pub plot_flag: bool,
    /// Whether to draw the search-angle histogram at the end of the run.
    pub plot_search_angle: bool,
    /// Whether to save the swarm automatically every `max_gen / 5`
    /// generations, plus once for the final generation.
    pub _ckpt_flag: bool,
    /// Which model runs: `0` classic, `2` evaluation right after each move,
    /// `3` a Beta-distributed draw when the swarm improves steadily; any other
    /// value the self-adaptive model with evaluation once per generation.
    pub model: u8,
    /// What to output: `0` nothing, `1` the best particle, `2` the whole swarm;
    /// any other value nothing.
    pub output: u8,
}

/// The velocity rule that `model` selects.
pub open spec fn velocity_rule_of(model: u8) -> VelocityRule {
    if model == 0 {
        VelocityRule::Classic
    } else {
        VelocityRule::SelfAdaptive
    }
}

/// The output that `output` selects.
pub open spec fn output_kind_of(output: u8) -> OutputKind {
    if output == 1 {
        OutputKind::BestOne
    } else if output == 2 {
        OutputKind::Swarm
    } else {
        OutputKind::Nothing
    }
}

impl Mode {
    /// The velocity rule of this run.
    pub fn velocity_rule(&self) -> (rule: VelocityRule)
        ensures
            rule == velocity_rule_of(self.model),
    {
        if self.model == 0 {
            VelocityRule::Classic
        } else {
            VelocityRule::SelfAdaptive
        }
    }

    /// Whether each particle is evaluated right after it moves (model `2`),
    /// in place of one evaluation of the whole swarm per generation.
    pub fn evaluates_each_move(&self) -> (each: bool)
        ensures
            each == (self.model == 2),
    {
        self.model == 2
    }

    /// What this run hands back when it is finished.
    pub fn output_kind(&self) -> (kind: OutputKind)
        ensures
            kind == output_kind_of(self.output),
    {
        if self.output == 1 {
            OutputKind::BestOne
        } else if self.output == 2 {
            OutputKind::Swarm
        } else {
            OutputKind::Nothing
        }
    }
}

} // verus!
