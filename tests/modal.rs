use machine_core::lexer::lex_block;
use machine_core::modal::{interpret_block, look_ahead, BlockPlan, ModalState};

fn xyz() -> Vec<Vec<u8>> {
    vec![b"X".to_vec(), b"Y".to_vec(), b"Z".to_vec()]
}

fn run(m: &mut ModalState, block: &str) -> BlockPlan {
    let s = block.as_bytes();
    let w = lex_block(s, &xyz());
    interpret_block(m, s, &w).1
}

#[test]
fn distance_mode_follows_g90_g91() {
    let mut m = ModalState::new();
    run(&mut m, "G90 G21 G1 X10");
    assert!(m.abs_mode);
    run(&mut m, "G91 G1 X5");
    assert!(!m.abs_mode);
    run(&mut m, "G91 G1 X-2");
    assert!(!m.abs_mode);
    run(&mut m, "G90 G1 X7");
    assert!(m.abs_mode);
    assert_eq!(m.current_motion, 1);
}

#[test]
fn units_mode_follows_g20_g21() {
    let mut m = ModalState::new();
    run(&mut m, "G90 G21 G1 X10");
    assert!(m.units_mm);
    run(&mut m, "G20 G1 X1");
    assert!(!m.units_mm);
    run(&mut m, "G1 X1");
    assert!(!m.units_mm);
    run(&mut m, "G21 G1 X2");
    assert!(m.units_mm);
}

#[test]
fn g41_without_axis_words_is_modal_only_and_arms_entry() {
    let mut m = ModalState::new();
    run(&mut m, "G90 G21 G1 X5 Y6 Z7");
    let p = run(&mut m, "G41 D3");
    assert_eq!(m.cutter_comp, 41);
    assert!(m.comp_entry_pending);
    assert_eq!(m.active_d, 3);
    assert!(p.comp_just_enabled);
}

#[test]
fn g41_armed_on_z_move_stays_pending() {
    let mut m = ModalState::new();
    run(&mut m, "G90 G21 G40");
    run(&mut m, "G0 X10 Y-10");
    run(&mut m, "G41 D3 G1 Z-5");
    assert_eq!(m.cutter_comp, 41);
    assert!(m.comp_entry_pending);
}

#[test]
fn repeated_g41_keeps_entry_pending() {
    let mut m = ModalState::new();
    run(&mut m, "G90 G21 G40");
    run(&mut m, "G0 X-10 Y-40");
    run(&mut m, "G41 Z-5");
    assert!(m.comp_entry_pending);
    run(&mut m, "G1 G41 H0 X0 Y-50 F200");
    assert!(m.comp_entry_pending);
    assert_eq!(m.active_h, 0);
}

#[test]
fn g41_with_xy_motion_does_not_arm() {
    let mut m = ModalState::new();
    let p = run(&mut m, "G41 D2 G1 X10 Y0");
    assert!(!m.comp_entry_pending);
    assert_eq!(p.comp_side, 41);
    assert!(p.comp_just_enabled);
}

#[test]
fn g40_on_motion_block_keeps_previous_side() {
    let mut m = ModalState::new();
    run(&mut m, "G90 G21 G40");
    run(&mut m, "G1 X0 Y0");
    run(&mut m, "G41 D2 G1 X10 Y0");
    let p = run(&mut m, "G1 G40 X20 Y0");
    assert!(p.cancel_on_motion);
    assert_eq!(p.comp_side, 41);
    assert!(p.forget_comp_link);
    assert_eq!(m.cutter_comp, 40);
    let p = run(&mut m, "G1 X30 Y0");
    assert_eq!(p.comp_side, 40);
    assert!(!p.cancel_on_motion);
}

#[test]
fn g40_without_motion_cancels_at_once() {
    let mut m = ModalState::new();
    run(&mut m, "G42 D1");
    let p = run(&mut m, "G40");
    assert!(!p.cancel_on_motion);
    assert_eq!(p.comp_side, 40);
    assert!(!m.comp_entry_pending);
}

#[test]
fn t0_cancels_length_and_cutter_comp() {
    let mut m = ModalState::new();
    run(&mut m, "G90 G21");
    run(&mut m, "G43 H1");
    run(&mut m, "G41 D1");
    assert_eq!(m.active_tool, 0);
    assert!(m.length_comp_active);
    assert_eq!(m.cutter_comp, 41);
    run(&mut m, "T0");
    assert_eq!(m.active_tool, 0);
    assert!(!m.length_comp_active);
    assert_eq!(m.cutter_comp, 40);
}

#[test]
fn tool_word_selects_and_clears_d_h() {
    let mut m = ModalState::new();
    run(&mut m, "D4 H5");
    assert_eq!((m.active_d, m.active_h), (4, 5));
    run(&mut m, "T7");
    assert_eq!((m.active_tool, m.active_d, m.active_h), (7, 0, 0));
    run(&mut m, "T-3 D-2");
    assert_eq!((m.active_tool, m.active_d), (0, 0));
}

#[test]
fn m_codes_set_spindle_and_coolant() {
    let mut m = ModalState::new();
    run(&mut m, "M3 M8");
    assert_eq!(m.spindle_mode, 3);
    assert!(m.coolant_on);
    run(&mut m, "M4 M9");
    assert_eq!(m.spindle_mode, 4);
    assert!(!m.coolant_on);
    run(&mut m, "M5 M99");
    assert_eq!(m.spindle_mode, 5);
}

#[test]
fn exact_stop_and_wcs_selection() {
    let mut m = ModalState::new();
    let p = run(&mut m, "G61 G55");
    assert!(m.exact_stop);
    assert_eq!(p.wcs, Some(1));
    let p = run(&mut m, "G64 G153");
    assert!(!m.exact_stop);
    assert_eq!(p.wcs, Some(6));
    let p = run(&mut m, "G1");
    assert_eq!(p.wcs, None);
}

#[test]
fn motion_is_last_on_line_else_modal() {
    let mut m = ModalState::new();
    let p = run(&mut m, "G0 G2 X1");
    assert_eq!(p.motion, 2);
    let p = run(&mut m, "X3");
    assert_eq!(p.motion, 2);
}

#[test]
fn look_ahead_reads_next_compensated_move() {
    let mut m = ModalState::new();
    run(&mut m, "G41 D1 G1 X10");
    let s = b"G1 Y10";
    let w = lex_block(s, &xyz());
    let la = look_ahead(&m, s, &w).expect("compensated move");
    assert_eq!(la.side, 41);
    assert!(la.y_set && !la.x_set);
    let s2 = b"G0 Y10";
    let w2 = lex_block(s2, &xyz());
    assert!(look_ahead(&m, s2, &w2).is_none());
    let s3 = b"G40 G1 Y10";
    let w3 = lex_block(s3, &xyz());
    assert!(look_ahead(&m, s3, &w3).is_none());
}

#[test]
fn entry_is_forced_for_single_axis_engagement_or_pending() {
    let mut m = ModalState::new();
    run(&mut m, "G90 G21 G40 G1 X0 Y0");
    let p = run(&mut m, "G41 D1 G1 X10");
    assert!(p.entry_forced);
    let p = run(&mut m, "G1 Y10");
    assert!(!p.entry_forced);
    let mut m2 = ModalState::new();
    let p = run(&mut m2, "G41 D1 G1 X10 Y5");
    assert!(!p.entry_forced);
    let mut m3 = ModalState::new();
    run(&mut m3, "G41 Z-5");
    let p = run(&mut m3, "G1 X50 Y-10");
    assert!(p.entry_forced);
}
