use kbot::bus::{classify_port, contains_id, starts_with, DiscoveryTracker, PortKind};
use kbot::observation::{
    arrange_joint_state, dof_observation, imu_observation, observation_size,
    pair_actions_with_actuators, require_imu_parts, start_positions, DofError, ImuReadError,
    ObservationBuffer,
};
use kbot::joints::actuator_id_map;

#[test]
fn port_kinds() {
    assert_eq!(classify_port("can0"), Some(PortKind::SocketCan));
    assert_eq!(classify_port("can"), Some(PortKind::SocketCan));
    assert_eq!(classify_port("/dev/ttyUSB0"), Some(PortKind::Ch341));
    assert_eq!(classify_port("/dev/ttyCH341USB0"), Some(PortKind::Ch341));
    assert_eq!(classify_port("eth0"), None);
    assert_eq!(classify_port("ca"), None);
    assert_eq!(classify_port(""), None);
    assert_eq!(classify_port("/dev/tt"), None);
}

#[test]
fn prefixes() {
    assert!(starts_with("can3", "can"));
    assert!(starts_with("abc", ""));
    assert!(!starts_with("ab", "abc"));
    assert!(!starts_with("xcan", "can"));
    assert!(contains_id(&vec![3, 4], 4));
    assert!(!contains_id(&vec![], 4));
}

#[test]
fn discovery_across_ports() {
    let mut t = DiscoveryTracker::new(vec![11, 12, 13]);
    assert_eq!(t.missing(), vec![0, 1, 2]);
    let unknown = t.record_scan(&vec![12, 99, 11, 7]);
    assert_eq!(unknown, vec![99, 7]);
    assert_eq!(t.missing(), vec![2]);
    let unknown = t.record_scan(&vec![]);
    assert!(unknown.is_empty());
    assert_eq!(t.missing(), vec![2]);
    let unknown = t.record_scan(&vec![13, 13]);
    assert!(unknown.is_empty());
    assert!(t.missing().is_empty());
}

#[test]
fn repeated_scan_changes_nothing() {
    let mut t = DiscoveryTracker::new(vec![21, 22]);
    t.record_scan(&vec![22]);
    let first = t.missing();
    let unknown = t.record_scan(&vec![22]);
    assert_eq!(t.missing(), first);
    assert!(unknown.is_empty());
}

fn all_readings() -> Vec<(u32, f64, f64)> {
    actuator_id_map().iter().map(|(id, nn)| (*id as u32, *nn as f64, 100.0 + *nn as f64)).collect()
}

#[test]
fn arrange_places_every_joint_in_network_order() {
    let ids: Vec<u8> = actuator_id_map().iter().map(|(id, _)| *id).collect();
    let (p, v) = arrange_joint_state(&ids, &all_readings(), 0.0).unwrap();
    let expected_p: Vec<f64> = (0..20).map(|n| n as f64).collect();
    let expected_v: Vec<f64> = (0..20).map(|n| 100.0 + n as f64).collect();
    assert_eq!(p, expected_p);
    assert_eq!(v, expected_v);
}

#[test]
fn arrange_leaves_unasked_slots_at_zero() {
    let (p, v) = arrange_joint_state(&vec![11, 21], &all_readings(), -1.0).unwrap();
    for n in 0..20 {
        let expected = if n == 5 || n == 0 { n as f64 } else { -1.0 };
        assert_eq!(p[n], expected);
    }
    assert_eq!(v[5], 105.0);
    let (p, _) = arrange_joint_state(&vec![], &vec![], 7).unwrap();
    assert_eq!(p, vec![7; 20]);
}

#[test]
fn arrange_uses_first_reading_of_an_actuator() {
    let readings = vec![(21u32, 1, 2), (21u32, 3, 4)];
    let (p, v) = arrange_joint_state(&vec![21], &readings, 0).unwrap();
    assert_eq!((p[0], v[0]), (1, 2));
}

#[test]
fn arrange_errors() {
    let readings = vec![(11u32, 1.0, 2.0)];
    assert_eq!(arrange_joint_state(&vec![11, 12], &readings, 0.0), Err(DofError::NotInStateResponse(12)));
    assert_eq!(arrange_joint_state(&vec![11, 99], &readings, 0.0), Err(DofError::NotInIdMap(99)));
    // A missing slot is reported before a missing reading, and the first bad
    // actuator decides.
    assert_eq!(arrange_joint_state(&vec![99], &vec![], 0.0), Err(DofError::NotInIdMap(99)));
    assert_eq!(arrange_joint_state(&vec![12, 99], &readings, 0.0), Err(DofError::NotInStateResponse(12)));
}

#[test]
fn pairing_follows_the_joint_table() {
    let actions: Vec<i32> = (0..20).collect();
    let commands = pair_actions_with_actuators(&actions);
    assert_eq!(commands.len(), 20);
    assert_eq!(commands[0], (11, 5));
    assert_eq!(commands[5], (21, 0));
    assert_eq!(commands[10], (31, 15));
    assert_eq!(commands[19], (45, 14));
}

#[test]
fn commanded_positions_read_back_in_network_order() {
    let actions: Vec<f32> = (0..20).map(|i| i as f32 * 0.5 - 3.0).collect();
    let commands = pair_actions_with_actuators(&actions);
    let ids: Vec<u8> = commands.iter().map(|(id, _)| *id as u8).collect();
    let readings: Vec<(u32, f32, f32)> = commands.iter().map(|(id, a)| (*id, *a, *a)).collect();
    let (p, v) = arrange_joint_state(&ids, &readings, 0.0).unwrap();
    assert_eq!(p, actions);
    assert_eq!(v, actions);
}

#[test]
fn observation_parts() {
    assert_eq!(observation_size(), 49);
    let dof = dof_observation(&vec![1; 20], &vec![2; 20]);
    assert_eq!(dof.len(), 40);
    assert_eq!(dof[19], 1);
    assert_eq!(dof[20], 2);
    let imu = imu_observation((1, 2, 3), (4, 5, 6), (7, 8, 9));
    assert_eq!(imu, vec![1, 2, 3, 4, 5, 6, 7, 8, 9]);
}

#[test]
fn imu_parts_required_in_order() {
    assert_eq!(require_imu_parts(Some(1), Some(2), Some(3)), Ok((1, 2, 3)));
    assert_eq!(require_imu_parts::<i32, i32, i32>(None, None, None), Err(ImuReadError::NoAccelerometer));
    assert_eq!(require_imu_parts::<i32, i32, i32>(Some(1), None, None), Err(ImuReadError::NoGyroscope));
    assert_eq!(require_imu_parts::<i32, i32, i32>(Some(1), Some(2), None), Err(ImuReadError::NoQuaternion));
}

#[test]
fn observation_refresh() {
    let mut buf = ObservationBuffer::new(0);
    assert_eq!(buf.values(), vec![0; 49]);
    let r = buf.refresh::<&str>(Ok(vec![1; 40]), Ok(vec![2; 9]));
    let mut expected = vec![1; 40];
    expected.extend(vec![2; 9]);
    assert_eq!(r, Ok(expected.clone()));
    assert_eq!(buf.values(), expected);
    // A failed joint reading changes nothing.
    let r = buf.refresh(Err("joints"), Ok(vec![5; 9]));
    assert_eq!(r, Err("joints"));
    assert_eq!(buf.values(), expected);
    // A failed inertial reading keeps the new joint part.
    let r = buf.refresh(Ok(vec![3; 40]), Err("imu"));
    assert_eq!(r, Err("imu"));
    let mut expected = vec![3; 40];
    expected.extend(vec![2; 9]);
    assert_eq!(buf.values(), expected);
}

#[test]
fn start_positions_from_readings_or_ids() {
    let readings = vec![(21u32, Some(1.5)), (22u32, None)];
    assert_eq!(start_positions(Some(&readings), &vec![1, 2, 3], 0.0), vec![(21, 1.5), (22, 0.0)]);
    assert_eq!(start_positions::<f64>(None, &vec![11, 12], 0.0), vec![(11, 0.0), (12, 0.0)]);
    assert!(start_positions::<f64>(None, &vec![], 0.0).is_empty());
}

use kbot::imu_search::{InterfaceSearch, SearchStep};

#[test]
fn imu_search_keeps_first_working_interface() {
    assert!(InterfaceSearch::start(0).is_none());
    let mut s = InterfaceSearch::start(3).unwrap();
    assert_eq!(s.next_step(), SearchStep::Try(0));
    s.record(false);
    assert_eq!(s.next_step(), SearchStep::Try(1));
    s.record(true);
    assert_eq!(s.next_step(), SearchStep::Found(1));
}

#[test]
fn imu_search_exhausts_all_interfaces() {
    let mut s = InterfaceSearch::start(2).unwrap();
    s.record(false);
    s.record(false);
    assert_eq!(s.next_step(), SearchStep::Exhausted);
}

use kbot::observation::{dof_error_message, imu_read_error_message};

#[test]
fn error_messages() {
    assert_eq!(dof_error_message(DofError::NotInIdMap(99)), "Actuator ID 99 not found in ACTUATOR_ID_MAP");
    assert_eq!(dof_error_message(DofError::NotInStateResponse(12)), "Actuator ID 12 not found in state response");
    assert_eq!(imu_read_error_message(ImuReadError::NoAccelerometer), "No accelerometer values");
    assert_eq!(imu_read_error_message(ImuReadError::NoGyroscope), "No gyroscope values");
    assert_eq!(imu_read_error_message(ImuReadError::NoQuaternion), "No quaternion values");
}
