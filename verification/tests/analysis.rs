use keyz::analysis::{modal_ioi_bin, plan_holds, HoldPlan};

#[test]
fn modal_bin_counts_and_prefers_the_last_tie() {
    assert_eq!(modal_ioi_bin(&vec![5, 7, 5, 9]), 5);
    // 3 and 8 both occur twice: the later bin wins
    assert_eq!(modal_ioi_bin(&vec![8, 3, 3, 8, 1]), 8);
    // bins past the histogram are not counted
    assert_eq!(modal_ioi_bin(&vec![1800, 1800, 2]), 2);
    // nothing counted: every bin ties at zero, the last one wins
    assert_eq!(modal_ioi_bin(&vec![]), 1799);
}

#[test]
fn runs_in_one_lane_merge_into_holds() {
    // lane 0 at slots 0, 4, 12 (gaps 4 and 8: one run), lane 1 at 2 and 20
    let slots = vec![0, 2, 4, 12, 20, 29];
    let lanes = vec![0, 1, 0, 0, 1, 0];
    let plans = plan_holds(&slots, &lanes);
    assert_eq!(
        plans,
        vec![
            HoldPlan { merged: false, run_end: 12, next_kept: Some(1) },
            HoldPlan { merged: false, run_end: 2, next_kept: Some(4) },
            HoldPlan { merged: true, run_end: 12, next_kept: Some(4) },
            HoldPlan { merged: true, run_end: 12, next_kept: Some(4) },
            HoldPlan { merged: false, run_end: 20, next_kept: Some(5) },
            HoldPlan { merged: false, run_end: 29, next_kept: None },
        ]
    );
}

#[test]
fn a_gap_over_two_beats_starts_a_new_run() {
    let plans = plan_holds(&vec![0, 9, 17], &vec![3, 3, 3]);
    assert_eq!(plans[0], HoldPlan { merged: false, run_end: 0, next_kept: Some(1) });
    assert_eq!(plans[1], HoldPlan { merged: false, run_end: 17, next_kept: None });
    assert_eq!(plans[2], HoldPlan { merged: true, run_end: 17, next_kept: None });
    assert!(plan_holds(&vec![], &vec![]).is_empty());
}
