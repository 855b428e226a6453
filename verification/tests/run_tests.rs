use sari_pso::mode::{Mode, OutputKind, VelocityRule};
use sari_pso::schedule::{Phase, PsoSchedule, PsoStep};
use sari_pso::search_angle::{angle_tick_label, histogram_peak, update_search_angle};

fn mode(plot_flag: bool, model: u8, output: u8) -> Mode {
    Mode { plot_flag, plot_search_angle: true, _ckpt_flag: false, model, output }
}

fn run(max_gen: usize, swarm_size: usize, m: Mode) -> Vec<PsoStep> {
    let mut s = PsoSchedule::new(max_gen, swarm_size, m);
    let mut steps = Vec::new();
    loop {
        let step = s.next_step();
        if step == PsoStep::Done {
            break;
        }
        steps.push(step);
    }
    steps
}

#[test]
fn mode_velocity_rule() {
    assert_eq!(mode(false, 0, 1).velocity_rule(), VelocityRule::Classic);
    assert_eq!(mode(false, 1, 1).velocity_rule(), VelocityRule::SelfAdaptive);
    assert_eq!(mode(false, 2, 1).velocity_rule(), VelocityRule::SelfAdaptive);
    assert_eq!(mode(false, 3, 1).velocity_rule(), VelocityRule::SelfAdaptive);
}

#[test]
fn mode_evaluation() {
    assert!(mode(false, 2, 1).evaluates_each_move());
    assert!(!mode(false, 1, 1).evaluates_each_move());
    assert!(!mode(false, 0, 1).evaluates_each_move());
}

#[test]
fn mode_output_kind() {
    assert_eq!(mode(false, 1, 0).output_kind(), OutputKind::Nothing);
    assert_eq!(mode(false, 1, 1).output_kind(), OutputKind::BestOne);
    assert_eq!(mode(false, 1, 2).output_kind(), OutputKind::Swarm);
    assert_eq!(mode(false, 1, 7).output_kind(), OutputKind::Nothing);
}

#[test]
fn schedule_orders_a_small_run() {
    let steps = run(5, 2, mode(true, 1, 1));
    assert_eq!(steps.len(), 5 * 3 + 2);
    assert_eq!(steps[0], PsoStep::FirstEvaluation);
    let steps = &steps[1..];
    assert_eq!(
        steps[0],
        PsoStep::MoveParticle {
            cur_gen: 1,
            index: 0,
            first: true,
            rule: VelocityRule::SelfAdaptive,
            evaluate_now: false
        }
    );
    assert_eq!(
        steps[1],
        PsoStep::MoveParticle {
            cur_gen: 1,
            index: 1,
            first: false,
            rule: VelocityRule::SelfAdaptive,
            evaluate_now: false
        }
    );
    assert_eq!(
        steps[2],
        PsoStep::CloseGeneration { cur_gen: 1, evaluate_swarm: true, plot: true, checkpoint: false }
    );
    assert_eq!(
        steps[15],
        PsoStep::Finish { plot_search_angle: true, output: OutputKind::BestOne }
    );
}

#[test]
fn schedule_moves_every_particle_once_per_generation() {
    let steps = run(7, 3, mode(false, 0, 2));
    let moves: Vec<(usize, usize)> = steps
        .iter()
        .filter_map(|s| match s {
            PsoStep::MoveParticle { cur_gen, index, .. } => Some((*cur_gen, *index)),
            _ => None,
        })
        .collect();
    let expected: Vec<(usize, usize)> =
        (1..=7).flat_map(|g| (0..3).map(move |i| (g, i))).collect();
    assert_eq!(moves, expected);
    let closes = steps.iter().filter(|s| matches!(s, PsoStep::CloseGeneration { .. })).count();
    assert_eq!(closes, 7);
    assert_eq!(steps.len(), 7 * 4 + 2);
    assert_eq!(steps[0], PsoStep::FirstEvaluation);
    assert_eq!(steps.iter().filter(|s| **s == PsoStep::FirstEvaluation).count(), 1);
}

#[test]
fn schedule_plots_every_fifth_of_the_run() {
    let steps = run(10, 1, mode(true, 1, 0));
    let plotted: Vec<usize> = steps
        .iter()
        .filter_map(|s| match s {
            PsoStep::CloseGeneration { cur_gen, plot: true, .. } => Some(*cur_gen),
            _ => None,
        })
        .collect();
    assert_eq!(plotted, vec![2, 4, 6, 8, 10]);
    let steps = run(12, 1, mode(true, 1, 0));
    let plotted = steps
        .iter()
        .filter(|s| matches!(s, PsoStep::CloseGeneration { plot: true, .. }))
        .count();
    assert_eq!(plotted, 6);
    let steps = run(11, 1, mode(true, 1, 0));
    let plotted: Vec<usize> = steps
        .iter()
        .filter_map(|s| match s {
            PsoStep::CloseGeneration { cur_gen, plot: true, .. } => Some(*cur_gen),
            _ => None,
        })
        .collect();
    assert_eq!(plotted, vec![2, 4, 6, 8, 10, 11]);
    let steps = run(10, 1, mode(false, 1, 0));
    assert!(steps.iter().all(|s| !matches!(s, PsoStep::CloseGeneration { plot: true, .. })));
}

#[test]
fn schedule_saves_checkpoints_with_the_plots() {
    let m = Mode { plot_flag: false, plot_search_angle: false, _ckpt_flag: true, model: 1, output: 0 };
    let steps = run(11, 2, m);
    let saved: Vec<usize> = steps
        .iter()
        .filter_map(|s| match s {
            PsoStep::CloseGeneration { cur_gen, checkpoint: true, plot, .. } => {
                assert!(!*plot);
                Some(*cur_gen)
            }
            _ => None,
        })
        .collect();
    assert_eq!(saved, vec![2, 4, 6, 8, 10, 11]);
    let steps = run(11, 2, mode(true, 1, 0));
    assert!(steps.iter().all(|s| !matches!(s, PsoStep::CloseGeneration { checkpoint: true, .. })));
}

#[test]
fn schedule_model_two_evaluates_each_move() {
    let steps = run(5, 2, mode(false, 2, 0));
    for s in &steps {
        match s {
            PsoStep::MoveParticle { evaluate_now, .. } => assert!(*evaluate_now),
            PsoStep::CloseGeneration { evaluate_swarm, .. } => assert!(!*evaluate_swarm),
            _ => {}
        }
    }
}

#[test]
fn schedule_without_generations_only_finishes() {
    let steps = run(0, 4, mode(true, 1, 2));
    assert_eq!(
        steps,
        vec![
            PsoStep::FirstEvaluation,
            PsoStep::Finish { plot_search_angle: true, output: OutputKind::Swarm }
        ]
    );
}

#[test]
fn schedule_stays_done() {
    let mut s = PsoSchedule::new(0, 1, mode(false, 1, 0));
    assert_eq!(s.phase, Phase::Starting);
    s.next_step();
    s.next_step();
    assert_eq!(s.phase, Phase::Done);
    assert_eq!(s.next_step(), PsoStep::Done);
    assert_eq!(s.next_step(), PsoStep::Done);
}

#[test]
fn search_angle_bins_count_and_wrap() {
    let mut info = [0usize; 80];
    update_search_angle(&mut info, &vec![0, 5, 5, 79, 80, 40]);
    assert_eq!(info[0], 2);
    assert_eq!(info[5], 2);
    assert_eq!(info[79], 1);
    assert_eq!(info[40], 1);
    assert_eq!(info.iter().sum::<usize>(), 6);
    update_search_angle(&mut info, &vec![5]);
    assert_eq!(info[5], 3);
    update_search_angle(&mut info, &vec![]);
    assert_eq!(info.iter().sum::<usize>(), 7);
}

#[test]
fn histogram_peak_is_the_tallest_bar() {
    let mut info = [0usize; 80];
    assert_eq!(histogram_peak(&info), 0);
    info[17] = 9;
    info[79] = 4;
    assert_eq!(histogram_peak(&info), 9);
    info[79] = 12;
    assert_eq!(histogram_peak(&info), 12);
}

#[test]
fn tick_labels_name_quarter_turns() {
    assert_eq!(angle_tick_label(0), "0");
    assert_eq!(angle_tick_label(20), "π/2");
    assert_eq!(angle_tick_label(40), "π");
    assert_eq!(angle_tick_label(60), "3π/2");
    assert_eq!(angle_tick_label(80), "2π");
    assert_eq!(angle_tick_label(10), "");
}
