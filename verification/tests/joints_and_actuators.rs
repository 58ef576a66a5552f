use kbot::actuators::{
    actuator_gains, actuator_ids, configure_steps, create_kbot_actuators, gains_for_actuator,
    is_kbot_actuator, is_online, motor_id, scan_configuration, scan_ids, startup_configuration,
    zeroing_phases, ActionResponse, ActionResult, ActuatorKind, ActuatorSpec, ConfigureCommand,
    GainRow, SupervisorStep,
};
use kbot::joints::{action_size, actuator_for_nn_index, actuator_id_map, home_position, nn_index_for_actuator};

#[test]
fn id_map_lists_twenty_joints() {
    let m = actuator_id_map();
    assert_eq!(m.len(), 20);
    assert_eq!(m[0], (11, 5));
    assert_eq!(m[5], (21, 0));
    assert_eq!(m[10], (31, 15));
    assert_eq!(m[19], (45, 14));
    assert_eq!(action_size(), 20);
}

#[test]
fn nn_index_lookup() {
    assert_eq!(nn_index_for_actuator(11), Some(5));
    assert_eq!(nn_index_for_actuator(25), Some(4));
    assert_eq!(nn_index_for_actuator(41), Some(10));
    assert_eq!(nn_index_for_actuator(35), Some(19));
    assert_eq!(nn_index_for_actuator(0), None);
    assert_eq!(nn_index_for_actuator(16), None);
    assert_eq!(nn_index_for_actuator(0xFD), None);
}

#[test]
fn actuator_lookup() {
    assert_eq!(actuator_for_nn_index(0), Some(21));
    assert_eq!(actuator_for_nn_index(9), Some(15));
    assert_eq!(actuator_for_nn_index(14), Some(45));
    assert_eq!(actuator_for_nn_index(20), None);
    assert_eq!(actuator_for_nn_index(usize::MAX), None);
}

#[test]
fn lookups_round_trip_on_every_slot() {
    for n in 0..20usize {
        let id = actuator_for_nn_index(n).unwrap();
        assert_eq!(nn_index_for_actuator(id), Some(n));
    }
    for (id, n) in actuator_id_map() {
        assert_eq!(actuator_for_nn_index(n), Some(id));
    }
}

#[test]
fn home_pose_is_in_network_order() {
    let h = home_position();
    assert_eq!(h.len(), 20);
    for (k, (id, _)) in h.iter().enumerate() {
        assert_eq!(actuator_for_nn_index(k), Some(*id as u8));
    }
    assert_eq!(h[3], (24, 15));
    assert_eq!(h[13], (44, -50));
    assert_eq!(h[18], (34, 50));
}

#[test]
fn kbot_actuator_table() {
    let specs = create_kbot_actuators();
    assert_eq!(specs.len(), 20);
    assert_eq!(
        specs[0],
        ActuatorSpec { actuator_id: 11, kind: ActuatorKind::RobStride03, max_angle_change_deg: Some(30), max_velocity_deg: Some(10) }
    );
    assert_eq!(
        specs[12],
        ActuatorSpec { actuator_id: 33, kind: ActuatorKind::RobStride03, max_angle_change_deg: Some(90), max_velocity_deg: Some(10) }
    );
    assert_eq!(
        specs[15],
        ActuatorSpec { actuator_id: 41, kind: ActuatorKind::RobStride04, max_angle_change_deg: Some(30), max_velocity_deg: Some(10) }
    );
    assert_eq!(specs[19].kind, ActuatorKind::RobStride02);
    // The wrists are RobStride 00 actuators.
    assert_eq!(specs[4].actuator_id, 15);
    assert_eq!(specs[4].kind, ActuatorKind::RobStride00);
    assert_eq!(specs[9].actuator_id, 25);
    assert_eq!(specs[9].kind, ActuatorKind::RobStride00);
    for s in &specs {
        let expected = match s.actuator_id {
            11 | 12 | 21 | 22 | 32 | 33 | 42 | 43 => ActuatorKind::RobStride03,
            31 | 34 | 41 | 44 => ActuatorKind::RobStride04,
            13 | 14 | 23 | 24 | 35 | 45 => ActuatorKind::RobStride02,
            15 | 25 => ActuatorKind::RobStride00,
            _ => unreachable!(),
        };
        assert_eq!(s.kind, expected);
    }
    assert_eq!(specs[19].max_angle_change_deg, Some(90));
}

#[test]
fn kbot_actuators_match_joint_table() {
    let ids = actuator_ids(&create_kbot_actuators());
    let table: Vec<u8> = actuator_id_map().iter().map(|(id, _)| *id).collect();
    assert_eq!(ids, table);
    for id in ids {
        assert!(nn_index_for_actuator(id).is_some());
        assert!(gains_for_actuator(id).is_some());
    }
}

#[test]
fn gain_rows() {
    assert_eq!(actuator_gains().len(), 20);
    assert_eq!(
        gains_for_actuator(32),
        Some(GainRow { actuator_id: 32, kp_milli: 200_000, kd_milli: 26_387, max_torque_milli: 42_000 })
    );
    assert_eq!(
        gains_for_actuator(15),
        Some(GainRow { actuator_id: 15, kp_milli: 20_000, kd_milli: 295, max_torque_milli: 9_800 })
    );
    assert_eq!(gains_for_actuator(99), None);
    // Thousandths convert back to the controller's own constants exactly.
    let row = gains_for_actuator(11).unwrap();
    assert_eq!(row.kd_milli as f32 / 1000.0, 8.284f32);
    assert_eq!(row.kp_milli as f32 / 1000.0, 100.0f32);
    let row = gains_for_actuator(13).unwrap();
    assert_eq!(row.max_torque_milli as f32 / 1000.0, 11.9f32);
}

#[test]
fn motor_id_is_low_byte() {
    assert_eq!(motor_id(11), 11);
    assert_eq!(motor_id(255), 255);
    assert_eq!(motor_id(256), 0);
    assert_eq!(motor_id(300), 44);
}

#[test]
fn configure_steps_in_order() {
    let cmd = ConfigureCommand { actuator_id: 12, torque_enabled: Some(true), zero_position: Some(true), new_actuator_id: Some(40) };
    assert_eq!(
        configure_steps(&cmd),
        vec![
            SupervisorStep::Configure { motor: 12 },
            SupervisorStep::Enable { motor: 12 },
            SupervisorStep::Zero { motor: 12 },
            SupervisorStep::ChangeId { motor: 12, new_id: 40 },
        ]
    );
    let cmd = ConfigureCommand { actuator_id: 12, torque_enabled: Some(false), zero_position: Some(false), new_actuator_id: None };
    assert_eq!(
        configure_steps(&cmd),
        vec![SupervisorStep::Configure { motor: 12 }, SupervisorStep::Disable { motor: 12, clear_fault: true }]
    );
    let cmd = ConfigureCommand { actuator_id: 268, torque_enabled: None, zero_position: None, new_actuator_id: Some(257) };
    assert_eq!(
        configure_steps(&cmd),
        vec![SupervisorStep::Configure { motor: 12 }, SupervisorStep::ChangeId { motor: 12, new_id: 1 }]
    );
}

#[test]
fn only_configuration_failures_are_reported_not_raised() {
    assert!(!SupervisorStep::Configure { motor: 1 }.aborts_on_failure());
    assert!(SupervisorStep::Enable { motor: 1 }.aborts_on_failure());
    assert!(SupervisorStep::Disable { motor: 1, clear_fault: true }.aborts_on_failure());
    assert!(SupervisorStep::Zero { motor: 1 }.aborts_on_failure());
    assert!(SupervisorStep::ChangeId { motor: 1, new_id: 2 }.aborts_on_failure());
}

#[test]
fn action_results() {
    let ok = ActionResult::from_outcome(21, Ok(()));
    assert_eq!((ok.actuator_id, ok.success, ok.error), (21, true, None));
    let failed = ActionResult::from_outcome(22, Err("Actuator not found".to_string()));
    assert_eq!((failed.actuator_id, failed.success), (22, false));
    assert_eq!(failed.error.as_deref(), Some("Actuator not found"));
    let r = ActionResponse::from_outcome(Ok(()));
    assert!(r.success && r.error.is_none());
    let r = ActionResponse::from_outcome(Err("timeout".to_string()));
    assert!(!r.success);
    assert_eq!(r.error.as_deref(), Some("timeout"));
}

#[test]
fn online_means_feedback_under_a_second_old() {
    assert!(is_online(Some(0)));
    assert!(is_online(Some(999_999_999)));
    assert!(!is_online(Some(1_000_000_000)));
    assert!(!is_online(Some(5_000_000_000)));
    assert!(!is_online(None));
}

#[test]
fn zeroing_disables_then_zeros_then_enables() {
    let (disable, zero, enable) = zeroing_phases(&vec![11, 45]);
    assert_eq!(disable.len(), 2);
    assert_eq!(disable[1], ConfigureCommand { actuator_id: 45, torque_enabled: Some(false), zero_position: None, new_actuator_id: None });
    assert_eq!(zero[0], ConfigureCommand { actuator_id: 11, torque_enabled: None, zero_position: Some(true), new_actuator_id: None });
    assert_eq!(enable[0], ConfigureCommand { actuator_id: 11, torque_enabled: Some(true), zero_position: None, new_actuator_id: None });
    assert_eq!(configure_steps(&zero[1]), vec![SupervisorStep::Configure { motor: 45 }, SupervisorStep::Zero { motor: 45 }]);
    let (d, z, e) = zeroing_phases(&vec![]);
    assert!(d.is_empty() && z.is_empty() && e.is_empty());
}

#[test]
fn startup_configuration_uses_gain_row() {
    let (row, cmd) = startup_configuration(34, true).unwrap();
    assert_eq!(row, GainRow { actuator_id: 34, kp_milli: 150_000, kd_milli: 8_654, max_torque_milli: 84_000 });
    assert_eq!(cmd, ConfigureCommand { actuator_id: 34, torque_enabled: Some(true), zero_position: None, new_actuator_id: None });
    let (_, cmd) = startup_configuration(11, false).unwrap();
    assert_eq!(cmd.torque_enabled, Some(false));
    assert!(startup_configuration(99, true).is_none());
}

#[test]
fn scan_helpers() {
    assert_eq!(
        scan_configuration(),
        vec![ActuatorSpec { actuator_id: 0xFD, kind: ActuatorKind::RobStride03, max_angle_change_deg: None, max_velocity_deg: None }]
    );
    let ids = scan_ids();
    assert_eq!(ids.len(), 255);
    assert_eq!(ids[0], 1);
    assert_eq!(ids[254], 255);
    assert!(is_kbot_actuator(11));
    assert!(is_kbot_actuator(45));
    assert!(is_kbot_actuator(11 + 256));
    assert!(!is_kbot_actuator(16));
    assert!(!is_kbot_actuator(0));
}
