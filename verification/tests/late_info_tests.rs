use sari_pso::late_info::LateInfo;
use sari_pso::selection::{
    clamp_choice, draw_first_choice, draws_from_beta, get_aggressive_flag, get_all_update_ratio,
    UpdateRatio,
};

fn table(rows: &[&[usize]]) -> Vec<Vec<usize>> {
    rows.iter().map(|r| r.to_vec()).collect()
}

#[test]
fn new_is_all_zero() {
    let info = LateInfo::new(5, 10);
    assert_eq!(info.cur_iter, 0);
    assert_eq!(info.opt_use_count, vec![vec![0; 10]; 5]);
    assert_eq!(info.opt_update_pb_count, vec![vec![0; 10]; 5]);
}

#[test]
fn new_with_no_choices_or_slots() {
    let info = LateInfo::new(0, 3);
    assert!(info.opt_use_count.is_empty());
    let info = LateInfo::new(2, 0);
    assert_eq!(info.opt_use_count, vec![Vec::<usize>::new(); 2]);
}

#[test]
fn update_info_counts_one_generation() {
    let mut info = LateInfo::new(3, 4);
    let particles = vec![(0, true), (2, false), (2, true), (0, false), (0, true)];
    info.update_info(&particles, 4);
    assert_eq!(info.cur_iter, 1);
    assert_eq!(info.opt_use_count, table(&[&[3, 0, 0, 0], &[0, 0, 0, 0], &[2, 0, 0, 0]]));
    assert_eq!(info.opt_update_pb_count, table(&[&[2, 0, 0, 0], &[0, 0, 0, 0], &[1, 0, 0, 0]]));
}

#[test]
fn update_info_fills_the_next_slot() {
    let mut info = LateInfo::new(2, 3);
    info.update_info(&vec![(0, true)], 3);
    info.update_info(&vec![(1, true), (1, false)], 3);
    assert_eq!(info.cur_iter, 2);
    assert_eq!(info.opt_use_count, table(&[&[1, 0, 0], &[0, 2, 0]]));
    assert_eq!(info.opt_update_pb_count, table(&[&[1, 0, 0], &[0, 1, 0]]));
}

#[test]
fn update_info_ring_overwrites_the_oldest_generation() {
    let mut info = LateInfo::new(2, 2);
    info.update_info(&vec![(0, true), (0, true)], 2);
    info.update_info(&vec![(1, false)], 2);
    assert_eq!(info.cur_iter, 0);
    info.update_info(&vec![(1, true)], 2);
    assert_eq!(info.cur_iter, 1);
    assert_eq!(info.opt_use_count, table(&[&[0, 0], &[1, 1]]));
    assert_eq!(info.opt_update_pb_count, table(&[&[0, 0], &[1, 0]]));
}

#[test]
fn update_info_with_no_particles_clears_the_slot() {
    let mut info = LateInfo::new(1, 2);
    info.update_info(&vec![(0, true)], 2);
    info.update_info(&vec![(0, true)], 2);
    info.update_info(&vec![], 2);
    assert_eq!(info.opt_use_count, table(&[&[0, 1]]));
    assert_eq!(info.opt_update_pb_count, table(&[&[0, 1]]));
}

#[test]
fn update_info_slot_counts_every_particle_once() {
    let mut info = LateInfo::new(4, 3);
    let particles: Vec<(usize, bool)> = (0..37).map(|i| (i * 7 % 4, i % 3 == 0)).collect();
    info.update_info(&particles, 3);
    let total: usize = info.opt_use_count.iter().map(|row| row[0]).sum();
    assert_eq!(total, particles.len());
    for k in 0..4 {
        for i in 0..3 {
            assert!(info.opt_update_pb_count[k][i] <= info.opt_use_count[k][i]);
        }
    }
}

#[test]
fn update_info_cur_iter_cycles_through_the_ring() {
    let mut info = LateInfo::new(1, 5);
    let mut seen = Vec::new();
    for _ in 0..10 {
        seen.push(info.cur_iter);
        info.update_info(&vec![(0, false)], 5);
    }
    assert_eq!(seen, vec![0, 1, 2, 3, 4, 0, 1, 2, 3, 4]);
}

#[test]
fn aggressive_flag_counts_rising_slots() {
    let mut info = LateInfo::new(2, 5);
    info.opt_update_pb_count = table(&[&[0, 1, 2, 3, 1], &[1, 1, 1, 1, 0]]);
    // column totals 1, 2, 3, 4, 1: three rises, more than 5 / 2
    assert!(get_aggressive_flag(&info, 5));
    info.opt_update_pb_count = table(&[&[0, 1, 0, 3, 1], &[1, 1, 1, 1, 0]]);
    // column totals 1, 2, 1, 4, 1: two rises, not more than 5 / 2
    assert!(!get_aggressive_flag(&info, 5));
}

#[test]
fn aggressive_flag_on_empty_range_is_false() {
    let info = LateInfo::new(3, 0);
    assert!(!get_aggressive_flag(&info, 0));
    let info = LateInfo::new(0, 4);
    assert!(!get_aggressive_flag(&info, 4));
}

#[test]
fn aggressive_flag_on_prefix_of_rows() {
    let mut info = LateInfo::new(1, 4);
    info.opt_update_pb_count = table(&[&[1, 2, 0, 0]]);
    assert!(!get_aggressive_flag(&info, 2));
    assert!(get_aggressive_flag(&info, 1) == false);
    info.opt_update_pb_count = table(&[&[1, 2, 3, 0]]);
    assert!(get_aggressive_flag(&info, 3));
}

#[test]
fn all_update_ratio_sums_each_row() {
    let mut info = LateInfo::new(3, 3);
    info.opt_use_count = table(&[&[4, 5, 6], &[0, 0, 0], &[1, 2, 3]]);
    info.opt_update_pb_count = table(&[&[1, 2, 3], &[0, 0, 0], &[0, 2, 1]]);
    let ratios = get_all_update_ratio(&info, 3);
    assert_eq!(
        ratios,
        vec![
            UpdateRatio { updates: 6, uses: 15 },
            UpdateRatio { updates: 0, uses: 0 },
            UpdateRatio { updates: 3, uses: 6 },
        ]
    );
    let first_two = get_all_update_ratio(&info, 2);
    assert_eq!(first_two.len(), 2);
    assert_eq!(first_two[0], UpdateRatio { updates: 6, uses: 15 });
}

#[test]
fn update_ratio_stays_within_one_after_recording() {
    let mut info = LateInfo::new(3, 2);
    info.update_info(&vec![(0, true), (1, false), (2, true), (2, true)], 2);
    info.update_info(&vec![(1, true), (1, true), (0, false)], 2);
    for r in get_all_update_ratio(&info, 3) {
        assert!(r.updates <= r.uses);
    }
}

#[test]
fn clamp_choice_keeps_choice_in_range() {
    assert_eq!(clamp_choice(0, 5), 0);
    assert_eq!(clamp_choice(3, 5), 3);
    assert_eq!(clamp_choice(4, 5), 4);
    assert_eq!(clamp_choice(5, 5), 4);
    assert_eq!(clamp_choice(9, 5), 4);
    assert_eq!(clamp_choice(7, 1), 0);
}

#[test]
fn draw_first_choice_is_in_range() {
    for r_num in 1..8 {
        for _ in 0..400 {
            let k = draw_first_choice(r_num);
            assert!(k < r_num);
        }
    }
    assert_eq!(draw_first_choice(1), 0);
}

#[test]
fn aggressive_flag_ignores_row_order_shifts_and_uses() {
    let mut info = LateInfo::new(3, 5);
    info.opt_update_pb_count = table(&[&[0, 1, 2, 3, 1], &[1, 1, 1, 1, 0], &[2, 0, 0, 1, 4]]);
    let flag = get_aggressive_flag(&info, 5);
    let mut permuted = LateInfo::new(3, 5);
    permuted.opt_update_pb_count = table(&[&[2, 0, 0, 1, 4], &[0, 1, 2, 3, 1], &[1, 1, 1, 1, 0]]);
    assert_eq!(get_aggressive_flag(&permuted, 5), flag);
    let mut shifted = LateInfo::new(3, 5);
    shifted.opt_update_pb_count = table(&[&[0, 1, 2, 3, 1], &[8, 8, 8, 8, 7], &[2, 0, 0, 1, 4]]);
    assert_eq!(get_aggressive_flag(&shifted, 5), flag);
    info.opt_use_count = table(&[&[9, 9, 9, 9, 9], &[0, 0, 0, 0, 0], &[5, 4, 3, 2, 1]]);
    info.cur_iter = 3;
    assert_eq!(get_aggressive_flag(&info, 5), flag);
}

#[test]
fn beta_draw_only_for_model_three_when_aggressive() {
    let mut info = LateInfo::new(1, 3);
    info.opt_update_pb_count = table(&[&[1, 2, 3]]);
    assert!(draws_from_beta(3, &info, 3));
    assert!(!draws_from_beta(1, &info, 3));
    assert!(!draws_from_beta(0, &info, 3));
    info.opt_update_pb_count = table(&[&[3, 2, 1]]);
    assert!(!draws_from_beta(3, &info, 3));
}
