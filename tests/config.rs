use packet_recorder::cli_config::{clipping_choices, CLIConfig, ConfigError};
use packet_recorder::disk::{disk_free_percent, free_percent, MountSpace};
use packet_recorder::stats::CaptureStats;

#[test]
fn config_from_answers() {
    let ifaces = vec!["lo".to_string(), "eth0".to_string()];
    let c = CLIConfig::new(3, 1, true, &ifaces, 1).unwrap();
    assert_eq!(c.interface_name, "eth0");
    assert_eq!(c.file_size_clipping, 16 * 1024 * 1024);
    assert_eq!(c.record_duration_secs, 180);
    assert!(c.promiscuous_mode);
    assert_eq!(clipping_choices()[4], 1024 * 1024 * 1024);
    assert_eq!(clipping_choices().len(), 5);
}

#[test]
fn config_errors() {
    let ifaces = vec!["lo".to_string()];
    assert_eq!(CLIConfig::new(u64::MAX, 0, false, &ifaces, 0).unwrap_err(), ConfigError::DurationTooLong);
    assert_eq!(CLIConfig::new(1, 5, false, &ifaces, 0).unwrap_err(), ConfigError::UnknownClippingChoice);
    assert_eq!(CLIConfig::new(1, 0, false, &ifaces, 1).unwrap_err(), ConfigError::UnknownInterface);
    assert_eq!(CLIConfig::new(1, 0, false, &vec![], 0).unwrap_err(), ConfigError::UnknownInterface);
}

#[test]
fn free_space_percentages() {
    assert_eq!(free_percent(50, 200), 25);
    assert_eq!(free_percent(1, 3), 33);
    assert_eq!(free_percent(7, 0), 0);
    assert_eq!(free_percent(u64::MAX, u64::MAX), 100);
    let mounts = vec![
        MountSpace { mounted_on: "/".to_string(), avail: 1, total: 10 },
        MountSpace { mounted_on: "/opt/dump".to_string(), avail: 30, total: 40 },
        MountSpace { mounted_on: "/opt/dump".to_string(), avail: 1, total: 40 },
    ];
    assert_eq!(disk_free_percent(&mounts, &"/opt/dump".to_string()), 75);
    assert_eq!(disk_free_percent(&mounts, &"/".to_string()), 10);
    assert_eq!(disk_free_percent(&mounts, &"/srv".to_string()), 0);
}

#[test]
fn stats_counters_and_resets() {
    let mut s = CaptureStats::new();
    s.increment_capture_counter(100);
    s.increment_capture_counter(50);
    s.increment_missed_counter(4);
    assert_eq!(s.reset_all_last_counter(), (4, 2, 150));
    assert_eq!((s.current_missed_count, s.current_capture_count, s.current_capture_count_bytes), (0, 0, 0));
    assert_eq!((s.total_missed_counter, s.total_captured_counter, s.total_captured_counter_bytes), (4, 2, 150));
    s.increment_missed_counter(u64::MAX);
    assert_eq!(s.total_missed_counter, u64::MAX);
    s.increment_capture_counter(3 * 1048576);
    assert_eq!(s.report().total_megabytes, 3);
    assert_eq!(s.reset_last_missed(), u64::MAX);
    assert_eq!(s.reset_last_capture(), (1, 3 * 1048576));
}
