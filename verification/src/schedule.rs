use vstd::prelude::*;
use crate::mode::{Mode, OutputKind, VelocityRule, output_kind_of, velocity_rule_of};

verus! {

/// Where a run stands.
#[derive(Clone, Copy, Debug, PartialEq, Eq, Structural)]
pub enum Phase {
    /// The swarm has been created; it is evaluated a first time next.
    Starting,
    /// Particle `index` of generation `cur_gen` moves next.
    Moving { cur_gen: usize, index: usize },
    /// All particles of generation `cur_gen` have moved; the generation is
    /// closed next.
    Closing { cur_gen: usize },
    /// All generations ran; the run is wound up next.
    Finishing,
    /// The run is over.
    Done,
}

/// What the driver of a run does next.
#[derive(Clone, Copy, Debug, PartialEq, Eq, Structural)]
pub enum PsoStep {
    /// Evaluate the freshly created swarm, which sets every personal best and
    /// the global best.
    FirstEvaluation,
    /// Choose the radius of particle `index` (the statistics are refreshed
    /// first when `first`), compute its velocity by `rule`, move it, keep it
    /// inside the search box and, when `evaluate_now`, evaluate it at once.
    MoveParticle {
        cur_gen: usize,
        index: usize,
        first: bool,
        rule: VelocityRule,
        evaluate_now: bool,
    },
    /// Evaluate the whole swarm when `evaluate_swarm`, record the search
    /// angles and the statistics of the generation, draw the swarm when
    /// `plot`, and save it when `checkpoint`.
    CloseGeneration { cur_gen: usize, evaluate_swarm: bool, plot: bool, checkpoint: bool },
    /// Draw the search-angle histogram when `plot_search_angle`, and hand back
    /// `output`.
    Finish { plot_search_angle: bool, output: OutputKind },
    /// Nothing is left to do.
    Done,
}

/// Whether generation `cur_gen` is one whose result is drawn or saved: every
/// `max_gen / 5` generations, plus the final one.
pub open spec fn report_generation(cur_gen: int, max_gen: int) -> bool {
    cur_gen % (max_gen / 5) == 0 || cur_gen == max_gen
}

/// The order in which a run of `max_gen` generations of `swarm_size`
/// particles performs its steps.
pub struct PsoSchedule {
    pub max_gen: usize,
    pub swarm_size: usize,
    pub mode: Mode,
    pub phase: Phase,
}

/// The phase and the step that follow `s`.
pub open spec fn transition(s: PsoSchedule) -> (Phase, PsoStep) {
    match s.phase {
        Phase::Starting => (
            if s.max_gen >= 1 {
                Phase::Moving { cur_gen: 1, index: 0 }
            } else {
                Phase::Finishing
            },
            PsoStep::FirstEvaluation,
        ),
        Phase::Moving { cur_gen, index } => (
            if index + 1 < s.swarm_size {
                Phase::Moving { cur_gen, index: (index + 1) as usize }
            } else {
                Phase::Closing { cur_gen }
            },
            PsoStep::MoveParticle {
                cur_gen,
                index,
                first: index == 0,
                rule: velocity_rule_of(s.mode.model),
                evaluate_now: s.mode.model == 2,
            },
        ),
        Phase::Closing { cur_gen } => (
            if cur_gen < s.max_gen {
                Phase::Moving { cur_gen: (cur_gen + 1) as usize, index: 0 }
            } else {
                Phase::Finishing
            },
            PsoStep::CloseGeneration {
                cur_gen,
                evaluate_swarm: s.mode.model != 2,
                plot: s.mode.plot_flag && report_generation(cur_gen as int, s.max_gen as int),
                checkpoint: s.mode._ckpt_flag && report_generation(cur_gen as int, s.max_gen as int),
            },
        ),
        Phase::Finishing => (
            Phase::Done,
            PsoStep::Finish {
                plot_search_angle: s.mode.plot_search_angle,
                output: output_kind_of(s.mode.output),
            },
        ),
        Phase::Done => (Phase::Done, PsoStep::Done),
    }
}

/// How many steps are left before the run is over.
pub open spec fn remaining(s: PsoSchedule) -> int {
    let per_gen: int = s.swarm_size + 1;
    match s.phase {
        Phase::Starting => 1 + s.max_gen * per_gen + 1,
        Phase::Moving { cur_gen, index } => (s.swarm_size - index) + 1 + (s.max_gen - cur_gen)
            * per_gen + 1,
        Phase::Closing { cur_gen } => 1 + (s.max_gen - cur_gen) * per_gen + 1,
        Phase::Finishing => 1,
        Phase::Done => 0,
    }
}

/// How many particle moves are left before the run is over.
pub open spec fn moves_remaining(s: PsoSchedule) -> int {
    match s.phase {
        Phase::Starting => s.max_gen * s.swarm_size,
        Phase::Moving { cur_gen, index } => (s.swarm_size - index) + (s.max_gen - cur_gen)
            * s.swarm_size,
        Phase::Closing { cur_gen } => (s.max_gen - cur_gen) * s.swarm_size,
        _ => 0,
    }
}

/// The schedule of a run that has not started.
pub open spec fn start(max_gen: usize, swarm_size: usize, mode: Mode) -> PsoSchedule {
    PsoSchedule {
        max_gen,
        swarm_size,
        mode,
        phase: Phase::Starting,
    }
}

/// `s` moved past its next step.
pub open spec fn advanced(s: PsoSchedule) -> PsoSchedule {
    PsoSchedule { phase: transition(s).0, ..s }
}

/// A run of `max_gen` generations of `swarm_size` particles takes
/// `max_gen * (swarm_size + 1) + 2` steps: the first evaluation, one move per
/// particle and one close per generation, then the wind-up; among them are
/// exactly
/// `max_gen * swarm_size` particle moves.
pub proof fn lemma_run_length(max_gen: usize, swarm_size: usize, mode: Mode)
    requires
        swarm_size >= 1,
        max_gen == 0 || max_gen >= 5,
    ensures
        start(max_gen, swarm_size, mode).wf(),
        remaining(start(max_gen, swarm_size, mode)) == max_gen * (swarm_size + 1) + 2,
        moves_remaining(start(max_gen, swarm_size, mode)) == max_gen * swarm_size,
{
}

/// Every step of an unfinished run brings it one step closer to its end, and
/// one particle move closer exactly when the step is a particle move; a
/// finished run stays finished.
pub proof fn lemma_step_counts_down(s: PsoSchedule)
    requires
        s.wf(),
    ensures
        advanced(s).wf(),
        s.phase != Phase::Done ==> remaining(s) >= 1 && remaining(advanced(s)) == remaining(s) - 1,
        s.phase == Phase::Done ==> advanced(s).phase == Phase::Done && transition(s).1
            == PsoStep::Done,
        moves_remaining(s) >= 0,
        moves_remaining(advanced(s)) == moves_remaining(s) - if transition(s).1 is MoveParticle {
            1int
        } else {
            0int
        },
{
    let n: int = s.swarm_size as int;
    let m: int = s.max_gen as int;
    match s.phase {
        Phase::Starting => {
            if m >= 1 {
                assert((m - 1) * (n + 1) + (n + 1) == m * (n + 1)) by (nonlinear_arith);
                assert((m - 1) * n + n == m * n) by (nonlinear_arith);
            } else {
                assert(m * (n + 1) == 0 && m * n == 0) by (nonlinear_arith)
                    requires
                        m == 0,
                ;
            }
            assert(m * (n + 1) >= 0 && m * n >= 0) by (nonlinear_arith)
                requires
                    m >= 0,
                    n >= 0,
            ;
        },
        Phase::Moving { cur_gen, index } => {
            let g: int = cur_gen as int;
            let t: PsoSchedule = advanced(s);
            if index + 1 < s.swarm_size {
                assert(t.phase == Phase::Moving { cur_gen, index: (index + 1) as usize });
            } else {
                assert(t.phase == Phase::Closing { cur_gen });
            }
            assert((m - g) * (n + 1) >= 0) by (nonlinear_arith)
                requires
                    g <= m,
                    n >= 0,
            ;
            assert((m - g) * n >= 0) by (nonlinear_arith)
                requires
                    g <= m,
                    n >= 0,
            ;
        },
        Phase::Closing { cur_gen } => {
            let g: int = cur_gen as int;
            assert((m - g) * (n + 1) >= 0) by (nonlinear_arith)
                requires
                    g <= m,
                    n >= 0,
            ;
            assert((m - g) * n >= 0) by (nonlinear_arith)
                requires
                    g <= m,
                    n >= 0,
            ;
            if g < m {
                assert((m - g) * (n + 1) == (m - (g + 1)) * (n + 1) + (n + 1)) by (nonlinear_arith);
                assert((m - g) * n == (m - (g + 1)) * n + n) by (nonlinear_arith);
            } else {
                assert((m - g) * (n + 1) == 0) by (nonlinear_arith)
                    requires
                        g == m,
                ;
                assert((m - g) * n == 0) by (nonlinear_arith)
                    requires
                        g == m,
                ;
            }
        },
        _ => {},
    }
}

/// What each step asks for, from the settings alone: a move is marked first
/// exactly for particle 0 of its generation (so the statistics are refreshed
/// once in every generation), it is evaluated at once exactly in model `2`,
/// and it uses the classic rule exactly in model `0`; a close evaluates the
/// whole swarm exactly outside model `2`, and draws and saves the swarm, as
/// the flags ask, every `max_gen / 5` generations and at the last one.
pub proof fn lemma_step_fields(s: PsoSchedule)
    requires
        s.wf(),
    ensures
        transition(s).1 matches PsoStep::MoveParticle { index, first, rule, evaluate_now, .. }
            ==> first == (index == 0) && evaluate_now == (s.mode.model == 2) && (rule
            == VelocityRule::Classic <==> s.mode.model == 0),
        transition(s).1 matches PsoStep::CloseGeneration { cur_gen, evaluate_swarm, plot, checkpoint }
            ==> {
            let last_or_fifth = cur_gen % (s.max_gen / 5) == 0 || cur_gen == s.max_gen;
            &&& evaluate_swarm == (s.mode.model != 2)
            &&& plot == (s.mode.plot_flag && last_or_fifth)
            &&& checkpoint == (s.mode._ckpt_flag && last_or_fifth)
        },
{
}

/// Each particle is evaluated exactly once per generation: in a run with the
/// given settings, a move is evaluated at once exactly when the close of a
/// generation does not evaluate the whole swarm.
pub proof fn lemma_one_evaluation_per_generation(s: PsoSchedule, t: PsoSchedule)
    requires
        s.wf(),
        t.wf(),
        s.mode == t.mode,
        transition(s).1 is MoveParticle,
        transition(t).1 is CloseGeneration,
    ensures
        transition(s).1->evaluate_now != transition(t).1->evaluate_swarm,
{
}

/// The first particle of every generation refreshes the statistics: when the
/// run is about to move particle 0 of generation `g`, that move is marked
/// first, and no other move of the generation is.
pub proof fn lemma_every_generation_refreshes(s: PsoSchedule)
    requires
        s.wf(),
        s.phase is Moving,
    ensures
        transition(s).1 matches PsoStep::MoveParticle { cur_gen, index, first, .. } && cur_gen
            == s.phase->Moving_cur_gen && index == s.phase->Moving_index && (first <==> index
            == 0),
{
}

impl PsoSchedule {
    /// The swarm is not empty, the number of generations is `0` or at least
    /// `5` (the drawing interval `max_gen / 5` is then positive), and the phase
    /// names a generation and a particle that exist.
    pub open spec fn wf(&self) -> bool {
        &&& self.swarm_size >= 1
        &&& self.max_gen == 0 || self.max_gen >= 5
        &&& match self.phase {
            Phase::Moving { cur_gen, index } => 1 <= cur_gen <= self.max_gen && index
                < self.swarm_size,
            Phase::Closing { cur_gen } => 1 <= cur_gen <= self.max_gen,
            _ => true,
        }
    }

    /// The schedule of a run that has not started: the freshly created swarm
    /// is evaluated first.
    pub fn new(max_gen: usize, swarm_size: usize, mode: Mode) -> (s: Self)
        requires
            swarm_size >= 1,
            max_gen == 0 || max_gen >= 5,
        ensures
            s.wf(),
            s == start(max_gen, swarm_size, mode),
    {
        PsoSchedule { max_gen, swarm_size, mode, phase: Phase::Starting }
    }

    /// The next step of the run; the schedule moves past it.
    pub fn next_step(&mut self) -> (step: PsoStep)
        requires
            old(self).wf(),
        ensures
            final(self).wf(),
            *final(self) == advanced(*old(self)),
            step == transition(*old(self)).1,
            step matches PsoStep::MoveParticle { cur_gen, index, .. } ==> 1 <= cur_gen
                <= old(self).max_gen && index < old(self).swarm_size,
            step matches PsoStep::CloseGeneration { cur_gen, .. } ==> 1 <= cur_gen
                <= old(self).max_gen,
            step matches PsoStep::MoveParticle { index, first, rule, evaluate_now, .. } ==> first
                == (index == 0) && evaluate_now == (old(self).mode.model == 2) && rule == if old(
                self,
            ).mode.model == 0 {
                VelocityRule::Classic
            } else {
                VelocityRule::SelfAdaptive
            },
            step matches PsoStep::CloseGeneration { cur_gen, evaluate_swarm, plot, checkpoint } ==> {
                let last_or_fifth = cur_gen % (old(self).max_gen / 5) == 0 || cur_gen
                    == old(self).max_gen;
                &&& evaluate_swarm == (old(self).mode.model != 2)
                &&& plot == (old(self).mode.plot_flag && last_or_fifth)
                &&& checkpoint == (old(self).mode._ckpt_flag && last_or_fifth)
            },
            step matches PsoStep::Finish { plot_search_angle, output } ==> plot_search_angle
                == old(self).mode.plot_search_angle && output == if old(self).mode.output == 1 {
                OutputKind::BestOne
            } else if old(self).mode.output == 2 {
                OutputKind::Swarm
            } else {
                OutputKind::Nothing
            },
            old(self).phase == Phase::Starting ==> step == PsoStep::FirstEvaluation,
            old(self).phase matches Phase::Moving { cur_gen: g, index: i } ==> step matches PsoStep::MoveParticle {
                cur_gen,
                index,
                ..
            } && cur_gen == g && index == i,
            old(self).phase matches Phase::Closing { cur_gen: g } ==> step matches PsoStep::CloseGeneration {
                cur_gen,
                ..
            } && cur_gen == g,
            old(self).phase == Phase::Finishing ==> step is Finish,
            old(self).phase == Phase::Done ==> step == PsoStep::Done,
    {
        match self.phase {
            Phase::Starting => {
                if self.max_gen >= 1 {
                    self.phase = Phase::Moving { cur_gen: 1, index: 0 };
                } else {
                    self.phase = Phase::Finishing;
                }
                PsoStep::FirstEvaluation
            },
            Phase::Moving { cur_gen, index } => {
                let step = PsoStep::MoveParticle {
                    cur_gen,
                    index,
                    first: index == 0,
                    rule: self.mode.velocity_rule(),
                    evaluate_now: self.mode.evaluates_each_move(),
                };
                if index + 1 < self.swarm_size {
                    self.phase = Phase::Moving { cur_gen, index: index + 1 };
                } else {
                    self.phase = Phase::Closing { cur_gen };
                }
                step
            },
            Phase::Closing { cur_gen } => {
                let interval: usize = self.max_gen / 5;
                let report: bool = cur_gen % interval == 0 || cur_gen == self.max_gen;
                let step = PsoStep::CloseGeneration {
                    cur_gen,
                    evaluate_swarm: !self.mode.evaluates_each_move(),
                    plot: self.mode.plot_flag && report,
                    checkpoint: self.mode._ckpt_flag && report,
                };
                if cur_gen < self.max_gen {
                    self.phase = Phase::Moving { cur_gen: cur_gen + 1, index: 0 };
                } else {
                    self.phase = Phase::Finishing;
                }
                step
            },
            Phase::Finishing => {
                self.phase = Phase::Done;
                PsoStep::Finish {
                    plot_search_angle: self.mode.plot_search_angle,
                    output: self.mode.output_kind(),
                }
            },
            Phase::Done => PsoStep::Done,
        }
    }
}

} // verus!
