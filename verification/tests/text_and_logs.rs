use chrono::{NaiveDate, Timelike};
use kbot::imu_log::{hex_register_listing, imu_parameters_json};
use kbot::meter::LoopMeter;
use kbot::text::{
    csv_header, decimal_string, hex_byte, imu_log_dir, imu_parameters_path, log_timestamp,
    nn_log_dir_name, sanitize_interface_name, signed_decimal_string,
};

#[test]
fn decimals() {
    assert_eq!(decimal_string(0), "0");
    assert_eq!(decimal_string(7), "7");
    assert_eq!(decimal_string(10), "10");
    assert_eq!(decimal_string(1234), "1234");
    assert_eq!(decimal_string(u64::MAX), u64::MAX.to_string());
    assert_eq!(signed_decimal_string(-5), "-5");
    assert_eq!(signed_decimal_string(0), "0");
    assert_eq!(signed_decimal_string(i64::MIN), i64::MIN.to_string());
    assert_eq!(signed_decimal_string(i64::MAX), i64::MAX.to_string());
}

#[test]
fn hex_bytes_match_register_dump_format() {
    assert_eq!(hex_byte(0), "0x00");
    assert_eq!(hex_byte(10), "0x0a");
    assert_eq!(hex_byte(0x4f), "0x4f");
    assert_eq!(hex_byte(255), "0xff");
    for b in 0..=255u8 {
        assert_eq!(hex_byte(b), format!("{:#04x}", b));
    }
    let all: std::collections::HashSet<String> = (0..=255u8).map(hex_byte).collect();
    assert_eq!(all.len(), 256);
}

#[test]
fn csv_headers() {
    assert_eq!(csv_header(None, "obs", 3), "obs_0,obs_1,obs_2");
    assert_eq!(csv_header(Some("timestamp"), "obs", 2), "timestamp,obs_0,obs_1");
    assert_eq!(csv_header(None, "action", 1), "action_0");
    assert_eq!(csv_header(None, "action", 0), "");
    assert_eq!(csv_header(Some("timestamp"), "obs", 0), "timestamp");
    let h = csv_header(None, "obs", 49);
    assert_eq!(h.split(',').count(), 49);
    assert!(h.ends_with(",obs_48"));
}

#[test]
fn interface_names_are_sanitized() {
    assert_eq!(sanitize_interface_name("/dev/ttyUSB0"), "_dev_ttyUSB0");
    assert_eq!(sanitize_interface_name("COM3:\\x"), "COM3__x");
    assert_eq!(sanitize_interface_name("plain"), "plain");
    assert_eq!(sanitize_interface_name(""), "");
    let once = sanitize_interface_name("a/b:c");
    assert_eq!(sanitize_interface_name(&once), once);
}

#[test]
fn log_paths() {
    assert_eq!(imu_log_dir("/tmp/kos-kbot", "20240102_030405"), "/tmp/kos-kbot/20240102_030405");
    assert_eq!(
        imu_parameters_path("/tmp/kos-kbot/20240102_030405", "/dev/ttyUSB0"),
        "/tmp/kos-kbot/20240102_030405/imu_parameters__dev_ttyUSB0.json"
    );
    assert_eq!(nn_log_dir_name(1_700_000_000), "nn_logs_1700000000");
    assert_eq!(nn_log_dir_name(-3), "nn_logs_-3");
}

#[test]
fn timestamps() {
    assert_eq!(log_timestamp(2024, 3, 5, 7, 8, 9, 0), "20240305_070809");
    assert_eq!(log_timestamp(2024, 12, 31, 23, 59, 59, 999_999_999), "20241231_235959");
    assert_eq!(log_timestamp(2016, 12, 31, 23, 59, 59, 1_000_000_000), "20161231_235960");
    assert_eq!(log_timestamp(5, 1, 1, 0, 0, 0, 0), "00050101_000000");
    assert_eq!(log_timestamp(10000, 1, 1, 0, 0, 0, 0), "+100000101_000000");
    assert_eq!(log_timestamp(-5, 1, 1, 0, 0, 0, 0), "-00050101_000000");
    for year in [0, 7, 99, 999, 2025, 9999] {
        let t = log_timestamp(year, 6, 15, 12, 30, 45, 0);
        assert_eq!(t.len(), 15);
        assert_eq!(t.as_bytes()[8], b'_');
    }
}

#[test]
fn timestamps_match_chrono() {
    for (y, mo, d, h, mi, s) in [(2024, 3, 5, 7, 8, 9), (1999, 12, 31, 23, 59, 58), (10000, 2, 29, 1, 2, 3), (-44, 3, 15, 12, 0, 0), (0, 1, 1, 0, 0, 0)] {
        let t = NaiveDate::from_ymd_opt(y, mo, d).unwrap().and_hms_opt(h, mi, s).unwrap();
        let expected = t.format("%Y%m%d_%H%M%S").to_string();
        assert_eq!(log_timestamp(y, mo, d, t.hour(), t.minute(), t.second(), t.nanosecond()), expected);
    }
}

#[test]
fn register_listing_and_json() {
    let registers = vec![("Save".to_string(), vec![0u8, 0x1f]), ("Rsw".to_string(), vec![])];
    let listing = hex_register_listing(&registers);
    assert_eq!(
        listing,
        vec![
            ("Save".to_string(), vec!["0x00".to_string(), "0x1f".to_string()]),
            ("Rsw".to_string(), vec![]),
        ]
    );
    let json = imu_parameters_json(&registers).unwrap();
    assert_eq!(json, "[\n  [\n    \"Save\",\n    [\n      \"0x00\",\n      \"0x1f\"\n    ]\n  ],\n  [\n    \"Rsw\",\n    []\n  ]\n]");
    assert_eq!(imu_parameters_json(&vec![]).unwrap(), "[]");
}

#[test]
fn meter_reports_every_hundredth_iteration() {
    let mut m = LoopMeter::new();
    for i in 1..=99 {
        assert!(!m.tick());
        assert_eq!(m.iterations(), i);
    }
    assert!(m.tick());
    assert_eq!(m.iterations(), 0);
    let reports = (0..1000).filter(|_| m.tick()).count();
    assert_eq!(reports, 10);
}
