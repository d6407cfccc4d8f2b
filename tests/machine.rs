use machine_core::channel::{Channel, ChannelAxisMap};
use machine_core::machine::{AxisType, Machine};
use machine_core::tools::ToolEntry;

fn xyz_machine() -> Machine<f64> {
    let mut m = Machine::new(300.0);
    for name in ["X", "Y", "Z"] {
        m.add_axis(name.as_bytes().to_vec(), AxisType::Linear, -10_000.0, 10_000.0, 0.0);
    }
    let map = ["X", "Y", "Z"]
        .iter()
        .enumerate()
        .map(|(i, l)| ChannelAxisMap { axis_id: i as u32, display_label: l.to_string() })
        .collect();
    m.add_channel(Channel::new(0, map, 1000.0, 1.0, 0.0, ToolEntry { radius: 4.0, length: 50.0 }));
    m
}

#[test]
fn default_frames_and_axis_offsets() {
    let m = xyz_machine();
    let labels: Vec<&[u8]> = m.work_offsets.iter().map(|w| w.label.as_slice()).collect();
    assert_eq!(labels, vec![&b"G54"[..], b"G55", b"G56", b"G57", b"G58", b"G59", b"G153"]);
    assert!(m.work_offsets.iter().all(|w| w.offsets.len() == 3));
    assert_eq!(m.wcs_offset(1), Some(0.0));
    assert_eq!(m.wcs_offset(7), None);
}

#[test]
fn work_zero_and_active_frame() {
    let mut m = xyz_machine();
    m.set_work_zero(0, 1, 12.5);
    assert_eq!(m.wcs_offset(0), Some(0.0));
    m.set_active_wcs(1);
    assert_eq!(m.wcs_offset(0), Some(12.5));
    m.set_active_wcs(99);
    assert_eq!(m.active_wcs, 1);
    let k = m.add_work_offset(b"FIXTURE".to_vec(), 0.0);
    assert_eq!(k, 7);
    assert_eq!(m.work_offsets[7].offsets.len(), 3);
}

#[test]
fn estop_empties_queue_and_freezes_axes() {
    let mut m = xyz_machine();
    m.channels[0].load_program(vec![b"G1 X10 Y0".to_vec()], true);
    m.channels[0].pending.push_back(vec![(0, 9.9), (1, 1.4)]);
    m.channels[0].pending.push_back(vec![(0, 9.6), (1, 2.8)]);
    m.axes[0].target = 10.0;
    m.axes[0].position = 3.2;
    m.axes[1].position = -1.4;
    m.axes[2].position = 7.0;
    m.axes[0].velocity = 500.0;
    m.set_estop(true, 0.0);
    assert!(m.channels[0].pending.is_empty());
    assert!(!m.channels[0].is_running);
    assert_eq!(m.axes[0].target, 3.2);
    assert_eq!(m.axes[1].target, -1.4);
    assert_eq!(m.axes[2].target, 7.0);
    assert_eq!(m.axes[0].velocity, 0.0);
}

#[test]
fn home_all_puts_z_first() {
    let mut m = xyz_machine();
    m.axes[0].homed = true;
    m.axes[1].target = 40.0;
    m.home_all(300.0, 0.0);
    assert!(m.is_homing);
    assert_eq!(m.homing_sequence, vec![2, 0, 1]);
    assert!(m.axes.iter().all(|a| !a.homed && a.target == 0.0));
    assert_eq!(m.homing_step(), Some(2));
    m.homing_arrived(0.0);
    assert!(m.axes[2].homed);
    assert_eq!(m.homing_step(), Some(0));
    m.homing_arrived(0.0);
    m.homing_arrived(0.0);
    assert!(!m.is_homing);
    assert!(m.axes.iter().all(|a| a.homed));
}

#[test]
fn home_all_ordered_with_primary_and_estop() {
    let mut m = xyz_machine();
    m.home_all_ordered(1, true, 500.0, 0.0);
    assert_eq!(m.homing_sequence, vec![1, 0, 2]);
    assert!(m.homing_rapid);
    assert_eq!(m.homing_feed, 500.0);
    m.home_all_ordered(-1, false, 500.0, 0.0);
    assert_eq!(m.homing_sequence, vec![0, 1, 2]);
    m.set_estop(true, 0.0);
    m.home_axis(1, 300.0, 0.0);
    assert_eq!(m.homing_sequence, vec![0, 1, 2]);
}

#[test]
fn start_homing_drops_unknown_and_repeated_ids() {
    let mut m = xyz_machine();
    m.start_homing(vec![1, 1, 9, 1, 2, 0, 0], false, 100.0);
    assert_eq!(m.homing_sequence, vec![1, 2, 0]);
    m.start_homing(vec![7], false, 100.0);
    assert!(!m.is_homing);
    m.home_axis(2, 300.0, 0.0);
    assert_eq!(m.homing_sequence, vec![2]);
    assert_eq!(m.homing_step(), Some(2));
}

#[test]
fn axis_setters_and_snapshot() {
    let mut m = xyz_machine();
    m.set_axis_accel(0, 2000.0);
    m.set_axis_invert(1, true);
    m.set_axis_machine_zero(2, 5.0);
    m.set_axis_accel(9, 1.0);
    assert_eq!(m.axes[0].accel, 2000.0);
    assert!(m.axes[1].invert);
    assert_eq!(m.axes[2].machine_zero, 5.0);
    let st = m.full_state(0.0);
    assert_eq!(st.axes.len(), 3);
    assert_eq!(st.channels.len(), 1);
    assert_eq!(st.work_offsets.len(), 7);
    m.clear_config(300.0);
    assert!(m.axes.is_empty() && m.channels.is_empty());
}

#[test]
fn load_program_splits_trims_and_upper_cases() {
    let mut m = xyz_machine();
    m.channels[0].programmed_work.insert(0, 4.0);
    m.load_program(0, "  g90 g21\r\n\ng1 x10 ; cut\n");
    assert_eq!(
        m.channels[0].program,
        vec![b"G90 G21".to_vec(), Vec::new(), b"G1 X10 ; CUT".to_vec()]
    );
    assert_eq!(m.channels[0].pc, 0);
    assert!(m.channels[0].is_running);
    assert!(m.channels[0].programmed_work.is_empty());
    m.load_program(5, "G1");
    assert_eq!(m.channels[0].program.len(), 3);
}

#[test]
fn jog_sets_feed_of_idle_channels_only() {
    let mut m = xyz_machine();
    m.channels[0].modal.current_motion = 1;
    m.jog_channels(1, 250.0, false);
    assert_eq!(m.channels[0].feed_rate, 250.0);
    assert_eq!(m.channels[0].modal.current_motion, 1);
    m.jog_channels(2, 80000.0, true);
    assert_eq!(m.channels[0].modal.current_motion, 0);
    m.jog_channels(9, 1.0, true);
    assert_eq!(m.channels[0].feed_rate, 80000.0);
    m.channels[0].load_program(vec![b"G1".to_vec()], true);
    m.jog_channels(1, 5.0, false);
    assert_eq!(m.channels[0].feed_rate, 80000.0);
}

#[test]
fn estop_blocks_load_jump_and_jog() {
    let mut m = xyz_machine();
    m.load_program(0, "G1 X1\nG1 X2");
    m.channels[0].after_motion(false);
    m.channels[0].programmed_work.insert(0, 1.0);
    m.set_estop(true, 0.0);
    assert_eq!(m.channels[0].pc, 1);
    m.load_program(0, "G1 X3\nG1 X4\nG1 X5");
    assert!(!m.channels[0].is_running);
    assert_eq!(m.channels[0].pc, 0);
    assert_eq!(m.channels[0].program.len(), 3);
    assert!(m.channels[0].programmed_work.is_empty());
    m.jump_blocks(0, 1, 0.0);
    assert!(!m.channels[0].is_running);
    m.jog_channels(0, 50.0, true);
    assert_eq!(m.channels[0].feed_rate, 1000.0);
    m.set_estop(false, 0.0);
    m.load_program(0, "G1 X1\nG1 X2");
    assert!(m.channels[0].is_running);
}

#[test]
fn jump_blocks_stops_the_channel_axes() {
    let mut m = xyz_machine();
    m.add_axis(b"A".to_vec(), AxisType::Rotary, -180.0, 180.0, 0.0);
    for a in m.axes.iter_mut() {
        a.velocity = 900.0;
    }
    m.jump_blocks(0, 1, 0.0);
    assert_eq!(m.axes[0].velocity, 900.0);
    m.load_program(0, "A\nB\nC");
    m.jump_blocks(0, 2, 0.0);
    assert_eq!(m.channels[0].pc, 2);
    assert!(m.channels[0].paused && m.channels[0].is_running);
    assert_eq!(m.axes[0].velocity, 0.0);
    assert_eq!(m.axes[2].velocity, 0.0);
    assert_eq!(m.axes[3].velocity, 900.0);
}

#[test]
fn snapshot_copies_axes_frames_and_maps() {
    let mut m = xyz_machine();
    m.axes[1].position = 4.5;
    m.set_work_zero(2, 0, -3.0);
    let st = m.full_state(0.0);
    assert_eq!(st.axes[1].position, 4.5);
    assert_eq!(st.axes[2].physical_name, b"Z".to_vec());
    assert_eq!(st.work_offsets[0].offsets[2].value, -3.0);
    assert_eq!(st.work_offsets[6].label, b"G153".to_vec());
    assert_eq!(st.channels[0].axis_map[1].display_label, "Y");
    assert_eq!(st.channels[0].tool_radius, 4.0);
}
