use machine_core::channel::{Channel, ChannelAxisMap, StepAction};
use machine_core::modal::ModalState;
use machine_core::tools::{ToolEntry, ToolTable};

fn xyz_channel() -> Channel<f64> {
    let map = vec![
        ChannelAxisMap { axis_id: 0, display_label: "x".to_string() },
        ChannelAxisMap { axis_id: 1, display_label: "Y".to_string() },
        ChannelAxisMap { axis_id: 2, display_label: "Z".to_string() },
    ];
    Channel::new(0, map, 1000.0, 1.0, 0.0, ToolEntry { radius: 4.0, length: 50.0 })
}

fn program(lines: &[&str]) -> Vec<Vec<u8>> {
    lines.iter().map(|l| l.as_bytes().to_vec()).collect()
}

#[test]
fn new_channel_defaults() {
    let c = xyz_channel();
    assert_eq!(c.modal, ModalState::new());
    assert_eq!(c.tool_radius, 4.0);
    assert_eq!(c.tool_length, 50.0);
    assert_eq!(c.tool_table.get(1).map(|e| e.radius), Some(4.0));
    assert!(c.tool_table.get(2).is_none());
    assert!(!c.is_running);
}

#[test]
fn load_program_starts_at_first_block_with_empty_cache() {
    let mut c = xyz_channel();
    c.programmed_work.insert(0, 12.0);
    c.modal.current_motion = 2;
    c.load_program(program(&["G1 X1", "G1 X2"]), true);
    assert_eq!(c.pc, 0);
    assert_eq!(c.active_pc, None);
    assert!(c.is_running);
    assert!(c.programmed_work.is_empty());
    assert_eq!(c.modal.current_motion, 0);
}

#[test]
fn scheduler_runs_blocks_then_finishes() {
    let mut c = xyz_channel();
    c.load_program(program(&["G1 X1", "G1 X2"]), true);
    assert!(matches!(c.after_motion(true), StepAction::Idle));
    assert!(matches!(c.after_motion(false), StepAction::Block(0)));
    assert_eq!(c.active_pc, Some(0));
    assert_eq!(c.pc, 1);
    c.pending.push_back(vec![(0, 5.0)]);
    match c.after_motion(false) {
        StepAction::Segment(seg) => assert_eq!(seg, vec![(0, 5.0)]),
        _ => panic!("expected the queued segment"),
    }
    assert!(matches!(c.after_motion(false), StepAction::Block(1)));
    assert!(matches!(c.after_motion(false), StepAction::Finished));
    assert!(!c.is_running);
    assert_eq!(c.active_pc, None);
}

#[test]
fn single_block_pauses_after_each_block() {
    let mut c = xyz_channel();
    c.load_program(program(&["G1 X1", "G1 X2"]), true);
    c.set_single_block(true);
    assert!(matches!(c.after_motion(false), StepAction::Block(0)));
    assert!(c.pause_pending);
    assert!(c.stop_at_target());
    assert!(matches!(c.after_motion(false), StepAction::Paused));
    assert!(c.paused);
    assert!(!c.pause_pending);
}

#[test]
fn stop_at_target_only_without_future_work() {
    let mut c = xyz_channel();
    c.load_program(program(&["G1 X1", "G1 X2"]), true);
    assert!(!c.stop_at_target());
    c.modal.exact_stop = true;
    assert!(c.stop_at_target());
    c.modal.exact_stop = false;
    c.after_motion(false);
    c.after_motion(false);
    assert!(c.stop_at_target());
}

#[test]
fn jump_blocks_clamps_and_pauses() {
    let mut c = xyz_channel();
    assert!(!c.jump_blocks(3));
    c.load_program(program(&["A", "B", "C"]), true);
    c.pending.push_back(vec![(0, 1.0)]);
    assert!(c.jump_blocks(2));
    assert_eq!(c.pc, 2);
    assert_eq!(c.active_pc, Some(1));
    assert!(c.pending.is_empty());
    assert!(c.paused && c.is_running);
    assert!(c.jump_blocks(10));
    assert_eq!(c.pc, 3);
    assert!(c.jump_blocks(i32::MIN));
    assert_eq!(c.pc, 0);
    assert_eq!(c.active_pc, None);
}

#[test]
fn reset_keeps_modal_state_and_queue() {
    let mut c = xyz_channel();
    c.load_program(program(&["G91", "G1 X1"]), true);
    c.after_motion(false);
    c.modal.abs_mode = false;
    c.pending.push_back(vec![(1, 2.0)]);
    c.reset_program();
    assert_eq!(c.pc, 0);
    assert!(!c.is_running);
    assert!(!c.modal.abs_mode);
    assert_eq!(c.pending.len(), 1);
}

#[test]
fn step_once_only_when_running() {
    let mut c = xyz_channel();
    c.step_once();
    assert!(!c.step_once);
    c.load_program(program(&["A"]), true);
    c.toggle_pause();
    assert!(c.paused);
    c.step_once();
    assert!(c.step_once && !c.paused);
}

#[test]
fn estop_clears_pending_queue() {
    let mut c = xyz_channel();
    c.load_program(program(&["A"]), true);
    c.pending.push_back(vec![(0, 1.0)]);
    c.pause_pending = true;
    c.estop();
    assert!(c.pending.is_empty());
    assert!(!c.is_running && !c.paused && !c.pause_pending);
}

#[test]
fn set_cutter_comp_accepts_only_sides() {
    let mut c = xyz_channel();
    c.set_cutter_comp(42);
    assert_eq!(c.modal.cutter_comp, 42);
    c.set_cutter_comp(43);
    assert_eq!(c.modal.cutter_comp, 40);
}

#[test]
fn active_tool_mirrors_into_slot_zero() {
    let mut c = xyz_channel();
    c.set_tool_table_entry(3, ToolEntry { radius: 2.5, length: 80.0 });
    c.set_active_tool(3, 0.0);
    assert_eq!(c.modal.active_tool, 3);
    assert_eq!(c.tool_radius, 2.5);
    assert_eq!(c.tool_length, 80.0);
    let slot0 = c.tool_table.get(0).unwrap();
    assert_eq!((slot0.radius, slot0.length), (2.5, 80.0));
    c.set_tool_table_entry(3, ToolEntry { radius: 1.0, length: 10.0 });
    assert_eq!(c.tool_radius, 1.0);
    c.set_active_tool(9, 0.0);
    assert_eq!(c.modal.active_tool, 9);
    assert_eq!(c.tool_radius, 1.0);
    c.set_active_tool(0, 0.0);
    assert_eq!((c.tool_radius, c.tool_length), (0.0, 0.0));
    assert_eq!(c.tool_table.get(0).unwrap().radius, 0.0);
}

#[test]
fn tool_length_and_radius_write_slot_zero() {
    let mut c = xyz_channel();
    c.set_tool_length(42.0, 0.0);
    c.set_tool_radius(3.0, 0.0);
    let e = c.tool_table.get(0).unwrap();
    assert_eq!((e.radius, e.length), (3.0, 42.0));
    let mut t: ToolTable<f64> = ToolTable::new();
    t.set_active_radius(1.5, 0.0);
    assert_eq!(t.get(0).map(|e| e.length), Some(0.0));
}

#[test]
fn labels_are_upper_cased_and_found() {
    let c = xyz_channel();
    assert_eq!(c.labels(), vec![b"X".to_vec(), b"Y".to_vec(), b"Z".to_vec()]);
    assert_eq!(c.axis_for_label(b"X"), Some(0));
    assert_eq!(c.axis_for_label(b"Z"), Some(2));
    assert_eq!(c.axis_for_label(b"A"), None);
}

#[test]
fn status_lists_programmed_work_per_axis() {
    let mut c = xyz_channel();
    c.programmed_work.insert(1, 7.5);
    let st = c.status(0.0);
    assert_eq!(st.programmed_work, vec![(0, 0.0), (1, 7.5), (2, 0.0)]);
}

fn apply(c: &mut Channel<f64>, block: &str) -> (bool, bool) {
    let s = block.as_bytes();
    let w = machine_core::lexer::lex_block(s, &c.labels());
    let (_, _, d_own, h_own) = c.apply_block(s, &w, 0.0);
    (d_own, h_own)
}

#[test]
fn d0_and_h0_read_slot_zero() {
    let mut c = xyz_channel();
    c.set_tool_radius(4.0, 0.0);
    c.set_tool_length(50.0, 0.0);
    assert_eq!(apply(&mut c, "G41 D0 G1 X10 Y0"), (false, false));
    assert_eq!(c.tool_radius, 4.0);
    assert_eq!(apply(&mut c, "G43 H0 G1 Z0"), (false, false));
    assert_eq!(c.tool_length, 50.0);
    assert!(c.modal.length_comp_active);
}

#[test]
fn d_word_without_slot_gives_its_own_value() {
    let mut c = xyz_channel();
    assert_eq!(apply(&mut c, "G41 D3"), (true, false));
    assert_eq!(c.modal.active_d, 3);
    assert_eq!(c.tool_radius, 4.0);
    assert_eq!(apply(&mut c, "H2.5"), (false, true));
}

#[test]
fn t_word_loads_table_entry_and_t0_unloads() {
    let mut c = xyz_channel();
    c.set_tool_table_entry(2, ToolEntry { radius: 3.0, length: 70.0 });
    apply(&mut c, "T2");
    assert_eq!((c.tool_radius, c.tool_length), (3.0, 70.0));
    assert_eq!(c.tool_table.get(0).unwrap().length, 70.0);
    apply(&mut c, "G43 H1 G41 D1");
    assert_eq!(c.modal.cutter_comp, 41);
    apply(&mut c, "T0");
    assert_eq!((c.tool_radius, c.tool_length), (0.0, 0.0));
    assert!(!c.modal.length_comp_active);
    assert_eq!(c.modal.cutter_comp, 40);
}

#[test]
fn g40_forgets_compensated_segment() {
    let mut c = xyz_channel();
    c.comp_link = Some(machine_core::channel::CompLink {
        end_prog_x: 1.0,
        end_prog_y: 0.0,
        end_off_x: 1.0,
        end_off_y: 2.0,
        dir_x: 1.0,
        dir_y: 0.0,
        mode: 41,
        radius: 2.0,
    });
    apply(&mut c, "G1 X5");
    assert!(c.comp_link.is_some());
    apply(&mut c, "G40");
    assert!(c.comp_link.is_none());
}

fn link(side: i32) -> machine_core::channel::CompLink<f64> {
    machine_core::channel::CompLink {
        end_prog_x: 10.0,
        end_prog_y: 0.0,
        end_off_x: 10.0,
        end_off_y: 2.0,
        dir_x: 1.0,
        dir_y: 0.0,
        mode: side,
        radius: 2.0,
    }
}

#[test]
fn entry_transition_targets_first_point_and_queues_the_rest() {
    let mut c = xyz_channel();
    c.modal.comp_entry_pending = true;
    let transition = vec![vec![(0, 10.0), (1, -7.0)]];
    let end = vec![(0, 50.0), (1, -7.0)];
    let programmed = vec![(0, 50.0), (1, -10.0), (2, -5.0)];
    let now = c.finish_linear(1, transition, end.clone(), &programmed, Some(link(41)), false, true, true);
    assert_eq!(now, vec![(0, 10.0), (1, -7.0)]);
    assert_eq!(c.pending.back(), Some(&end));
    assert_eq!(c.pending.len(), 1);
    assert!(!c.modal.comp_entry_pending);
    assert_eq!(c.comp_link.map(|l| l.mode), Some(41));
    assert_eq!(c.programmed_work.get(&1), Some(&-10.0));
}

#[test]
fn corner_arc_points_queue_in_order() {
    let mut c = xyz_channel();
    let transition = vec![vec![(0, 1.0)], vec![(0, 2.0)], vec![(0, 3.0)]];
    let now = c.finish_linear(1, transition, vec![(0, 4.0)], &vec![], Some(link(42)), true, true, true);
    assert_eq!(now, vec![(0, 1.0)]);
    let queued: Vec<f64> = c.pending.iter().map(|s| s[0].1).collect();
    assert_eq!(queued, vec![2.0, 3.0, 4.0]);
    assert!(c.comp_link.is_none());
}

#[test]
fn uncompensated_move_forgets_record_and_entry() {
    let mut c = xyz_channel();
    c.comp_link = Some(link(41));
    c.modal.comp_entry_pending = true;
    let now = c.finish_linear(0, vec![], vec![(0, 5.0)], &vec![(0, 5.0)], None, false, false, true);
    assert_eq!(now, vec![(0, 5.0)]);
    assert!(c.comp_link.is_none());
    assert!(!c.modal.comp_entry_pending);
    assert!(c.pending.is_empty());
}

#[test]
fn compensated_z_move_keeps_pending_entry() {
    let mut c = xyz_channel();
    c.modal.comp_entry_pending = true;
    c.comp_link = Some(link(41));
    c.finish_linear(1, vec![], vec![(2, -5.0)], &vec![(2, -5.0)], None, false, true, false);
    assert!(c.modal.comp_entry_pending);
    assert!(c.comp_link.is_some());
}

#[test]
fn queued_segments_keep_push_order() {
    let mut c = xyz_channel();
    c.pending.push_back(vec![(0, 0.5)]);
    c.queue_segments(vec![vec![(0, 1.0)], vec![(0, 2.0)]]);
    let queued: Vec<f64> = c.pending.iter().map(|s| s[0].1).collect();
    assert_eq!(queued, vec![0.5, 1.0, 2.0]);
    c.store_programmed(&vec![(0, 1.0), (0, 2.0)]);
    assert_eq!(c.programmed_work.get(&0), Some(&2.0));
}
