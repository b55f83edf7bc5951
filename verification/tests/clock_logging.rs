use rustcom::clock::Timestamp;
use rustcom::clock::format_compact;
use rustcom::clock::format_datetime;
use rustcom::clock::format_datetime_millis;
use rustcom::clock::format_u32;
use rustcom::clock::now_timestamp;
use rustcom::logging::DataLogEntry;
use rustcom::logging::Direction;
use rustcom::logging::create_log_entry;
use rustcom::logging::default_log_file_name;
use rustcom::logging::format_log_lines;
use rustcom::logging::snapshot_file_name;

fn sample_ts() -> Timestamp {
    Timestamp { year: 2024, month: 1, day: 2, hour: 3, minute: 4, second: 5, millis: 6 }
}

#[test]
fn datetime_renders_zero_padded() {
    let ts = sample_ts();
    assert_eq!(format_datetime(&ts), "2024-01-02 03:04:05");
    assert_eq!(format_datetime_millis(&ts), "2024-01-02 03:04:05.006");
    assert_eq!(format_compact(&ts), "20240102_030405");
}

#[test]
fn datetime_renders_large_fields() {
    let ts = Timestamp { year: 999, month: 12, day: 31, hour: 23, minute: 59, second: 59, millis: 999 };
    assert_eq!(format_datetime_millis(&ts), "0999-12-31 23:59:59.999");
}

#[test]
fn decimal_rendering() {
    assert_eq!(format_u32(0), "0");
    assert_eq!(format_u32(9600), "9600");
    assert_eq!(format_u32(u32::MAX), "4294967295");
}

#[test]
fn clock_gives_well_formed_timestamps() {
    let t = now_timestamp();
    assert!(t.year <= 9999);
    assert!((1..=12).contains(&t.month));
    assert!((1..=31).contains(&t.day));
    assert!(t.hour < 24);
    assert!(t.minute < 60);
    assert!(t.second < 60);
    assert!(t.millis <= 999);
}

#[test]
fn log_entry_holds_time_direction_and_bytes() {
    let e = create_log_entry(Direction::Received, b"abc", &sample_ts());
    assert_eq!(e.timestamp, "2024-01-02 03:04:05.006");
    assert_eq!(e.direction, Direction::Received);
    assert_eq!(e.data, b"abc".to_vec());
}

#[test]
fn log_lines_format() {
    let entries = vec![
        create_log_entry(Direction::Received, b"ping", &sample_ts()),
        create_log_entry(Direction::Sent, b"pong\n", &sample_ts()),
    ];
    let text = format_log_lines(&entries);
    assert_eq!(
        text,
        "[2024-01-02 03:04:05.006] RX: ping\n[2024-01-02 03:04:05.006] TX: pong\n\n"
    );
}

#[test]
fn log_lines_lossy_decode_payload() {
    let entries = vec![DataLogEntry {
        timestamp: "t".to_string(),
        direction: Direction::Received,
        data: vec![0xFF],
    }];
    assert_eq!(format_log_lines(&entries), "[t] RX: \u{FFFD}\n");
}

#[test]
fn generated_file_names() {
    let ts = sample_ts();
    assert_eq!(default_log_file_name(&ts), "rustcom_20240102_030405.log");
    assert_eq!(snapshot_file_name(&ts), "capture_20240102_030405.txt");
}
