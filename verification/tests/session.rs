use rustcom::clock::Timestamp;
use rustcom::codec::ViewMode;
use rustcom::logging::Direction;
use rustcom::serial::DataBits;
use rustcom::serial::LineEnding;
use rustcom::serial::Parity;
use rustcom::serial::StopBits;
use rustcom::session::ComAnalyzerApp;
use rustcom::session::ConfigError;

fn ts() -> Timestamp {
    Timestamp { year: 2024, month: 6, day: 15, hour: 10, minute: 20, second: 30, millis: 123 }
}

fn buffer_text(app: &ComAnalyzerApp) -> String {
    String::from_utf8_lossy(app.receive_buffer.contents()).into_owned()
}

#[test]
fn fresh_core_defaults() {
    let app = ComAnalyzerApp::new(&ts());
    assert!(!app.connected);
    assert!(!app.reconnecting);
    assert_eq!(app.baud_rate, "9600");
    assert_eq!(app.data_bits, DataBits::Eight);
    assert_eq!(app.stop_bits, StopBits::One);
    assert_eq!(app.parity, Parity::NoParity);
    assert_eq!(app.view_mode, ViewMode::Ascii);
    assert!(app.strip_ansi);
    assert_eq!(app.line_ending, LineEnding::CrLf);
    assert_eq!(app.log_file_path, "rustcom_20240615_102030.log");
    assert_eq!(app.bytes_received, 0);
    assert_eq!(app.bytes_sent, 0);
    assert!(app.error_message.is_none());
}

#[test]
fn connect_needs_a_selected_port() {
    let app = ComAnalyzerApp::new(&ts());
    assert_eq!(app.prepare_connect().err(), Some(ConfigError::NoPortSelected));
}

#[test]
fn connect_rejects_non_numeric_rate() {
    let mut app = ComAnalyzerApp::new(&ts());
    app.selected_port = Some("COM3".to_string());
    app.baud_rate = "fast".to_string();
    assert_eq!(app.prepare_connect().err(), Some(ConfigError::InvalidBaudRate));
    // state remains disconnected
    assert!(!app.connected);
    assert!(!app.reconnecting);
}

#[test]
fn connect_params_carry_settings() {
    let mut app = ComAnalyzerApp::new(&ts());
    app.selected_port = Some("/dev/ttyUSB0".to_string());
    app.baud_rate = "115200".to_string();
    let p = app.prepare_connect().ok().unwrap();
    assert_eq!(p.port_name, "/dev/ttyUSB0");
    assert_eq!(p.baud_rate, 115200);
    assert_eq!(p.data_bits, DataBits::Eight);
    assert_eq!(p.read_timeout_ms, 10);
}

#[test]
fn connect_success_marks_and_connects() {
    let mut app = ComAnalyzerApp::new(&ts());
    app.selected_port = Some("COM3".to_string());
    let p = app.prepare_connect().ok().unwrap();
    app.on_connect_success(&p, &ts());
    assert!(app.connected);
    assert!(app.error_message.is_none());
    assert_eq!(buffer_text(&app), "[2024-06-15 10:20:30] Connected to COM3 at 9600 baud\n");
    assert_eq!(app.receive_buffer_display, buffer_text(&app));
}

#[test]
fn disconnect_is_idempotent_and_marks() {
    let mut app = ComAnalyzerApp::new(&ts());
    app.connected = true;
    app.reconnecting = true;
    app.disconnect(&ts());
    assert!(!app.connected);
    assert!(!app.reconnecting);
    app.disconnect(&ts());
    assert!(!app.connected);
    let text = buffer_text(&app);
    assert_eq!(text, "[2024-06-15 10:20:30] Disconnected\n[2024-06-15 10:20:30] Disconnected\n");
}

#[test]
fn reconnect_flow_after_fatal_error() {
    let mut app = ComAnalyzerApp::new(&ts());
    app.selected_port = Some("COM7".to_string());
    app.auto_reconnect = true;
    app.connected = true;
    app.reconnect_delay_ms = 2000;

    // fatal read error while connected
    app.on_connection_lost(&ts());
    assert!(!app.connected);
    assert!(app.reconnecting);
    assert_eq!(app.error_message.as_deref(), Some("Connection lost. Auto-reconnecting..."));
    assert!(buffer_text(&app).contains("Connection lost to COM7"));

    // no attempt before the delay elapses
    assert!(!app.tick_reconnect(1000));
    assert!(!app.tick_reconnect(1999));
    assert_eq!(app.last_reconnect_attempt_ms, 0);

    // after the delay an attempt is due, and the timer re-arms
    assert!(app.tick_reconnect(2000));
    assert_eq!(app.last_reconnect_attempt_ms, 2000);

    // a failed reopen keeps reconnecting, silently
    app.on_connect_failure("busy");
    assert!(app.reconnecting);
    assert_eq!(app.error_message.as_deref(), Some("Failed to open port: busy"));
    assert!(!app.tick_reconnect(3000));
    assert!(app.tick_reconnect(4200));

    // a successful reopen connects and emits exactly one reconnect marker
    let p = app.prepare_connect().ok().unwrap();
    app.on_connect_success(&p, &ts());
    app.on_reconnect_success(&ts());
    assert!(app.connected);
    assert!(!app.reconnecting);
    assert_eq!(app.error_message.as_deref(), Some("Reconnected!"));
    let text = buffer_text(&app);
    assert_eq!(text.matches("Reconnected successfully").count(), 1);
}

#[test]
fn lost_without_auto_reconnect_stays_disconnected() {
    let mut app = ComAnalyzerApp::new(&ts());
    app.connected = true;
    app.auto_reconnect = false;
    app.on_connection_lost(&ts());
    assert!(!app.connected);
    assert!(!app.reconnecting);
    assert_eq!(app.error_message.as_deref(), Some("Connection lost. Device disconnected."));
    assert!(buffer_text(&app).contains("Connection lost to unknown"));
}

#[test]
fn user_disconnect_cancels_reconnecting() {
    let mut app = ComAnalyzerApp::new(&ts());
    app.selected_port = Some("COM7".to_string());
    app.auto_reconnect = true;
    app.connected = true;
    app.on_connection_lost(&ts());
    assert!(app.reconnecting);
    app.disconnect(&ts());
    assert!(!app.reconnecting);
    assert!(!app.tick_reconnect(1_000_000));
}

#[test]
fn received_bytes_reach_buffer_and_counters() {
    let mut app = ComAnalyzerApp::new(&ts());
    app.on_bytes_received(b"hello", &ts());
    assert_eq!(app.bytes_received, 5);
    assert_eq!(buffer_text(&app), "hello");
    assert_eq!(app.receive_buffer_display, "hello");
    assert!(app.log_entries.is_empty());
}

#[test]
fn received_bytes_logged_when_logging_is_on() {
    let mut app = ComAnalyzerApp::new(&ts());
    app.logging_enabled = true;
    app.on_bytes_received(b"abc", &ts());
    assert_eq!(app.log_entries.len(), 1);
    assert_eq!(app.log_entries[0].direction, Direction::Received);
    assert_eq!(app.log_entries[0].data, b"abc".to_vec());
}

#[test]
fn filter_gates_display_but_not_log() {
    let mut app = ComAnalyzerApp::new(&ts());
    app.logging_enabled = true;
    app.filter_enabled = true;
    app.update_filter("KEEP");
    app.on_bytes_received(b"drop me", &ts());
    assert_eq!(buffer_text(&app), "");
    assert_eq!(app.log_entries.len(), 1);
    app.on_bytes_received(b"KEEP me", &ts());
    assert_eq!(buffer_text(&app), "KEEP me");
    assert_eq!(app.log_entries.len(), 2);
}

#[test]
fn filter_error_keeps_previous_behaviour() {
    let mut app = ComAnalyzerApp::new(&ts());
    app.filter_enabled = true;
    app.update_filter("HELLO");
    assert!(app.error_message.is_none());
    app.update_filter("(");
    assert!(app.error_message.is_some());
    // previous matcher still active
    assert!(app.matches_filter(b"say HELLO"));
    assert!(!app.matches_filter(b"other"));
    // a valid pattern replaces it and clears the error
    app.update_filter("other");
    assert!(app.error_message.is_none());
    assert!(app.matches_filter(b"other"));
}

#[test]
fn send_data_echoes_and_clears() {
    let mut app = ComAnalyzerApp::new(&ts());
    app.send_buffer = "hi".to_string();
    let data = app.prepare_send_data();
    assert_eq!(data, b"hi\r\n".to_vec());
    app.on_send_result(Some(4), &data, &ts());
    assert_eq!(app.bytes_sent, 4);
    assert_eq!(app.send_buffer, "");
    assert_eq!(buffer_text(&app), "TX: hi\n");
}

#[test]
fn send_failure_surfaces_message() {
    let mut app = ComAnalyzerApp::new(&ts());
    app.send_buffer = "hi".to_string();
    let data = app.prepare_send_data();
    app.on_send_result(None, &data, &ts());
    assert_eq!(app.bytes_sent, 0);
    assert_eq!(app.send_buffer, "hi");
    assert_eq!(app.error_message.as_deref(), Some("Send failed"));
}

#[test]
fn hex_send_parses_and_echoes() {
    let mut app = ComAnalyzerApp::new(&ts());
    app.send_buffer = "AA 0D".to_string();
    let bytes = app.prepare_send_hex().unwrap();
    assert_eq!(bytes, vec![0xAA, 0x0D]);
    app.on_hex_send_result(Some(2), &bytes, &ts());
    assert_eq!(app.bytes_sent, 2);
    assert_eq!(app.send_buffer, "");
    assert_eq!(buffer_text(&app), "TX [hex]: AA 0D\n");
}

#[test]
fn hex_send_reports_bad_token() {
    let mut app = ComAnalyzerApp::new(&ts());
    app.send_buffer = "AA ZZ".to_string();
    assert!(app.prepare_send_hex().is_none());
    assert_eq!(app.error_message.as_deref(), Some("Invalid hex byte: 'ZZ'"));
    app.send_buffer = "  ".to_string();
    assert!(app.prepare_send_hex().is_none());
    assert_eq!(app.error_message.as_deref(), Some("Empty input"));
}

#[test]
fn port_scan_timing() {
    let mut app = ComAnalyzerApp::new(&ts());
    app.port_scan_interval_ms = 3000;
    assert!(!app.tick_port_scan(2999));
    assert!(app.tick_port_scan(3000));
    assert_eq!(app.last_port_scan_ms, 3000);
    assert!(!app.tick_port_scan(5999));
    assert!(app.tick_port_scan(6000));
    app.auto_scan_ports = false;
    assert!(!app.tick_port_scan(100000));
}

#[test]
fn port_scan_diff_markers() {
    let mut app = ComAnalyzerApp::new(&ts());
    app.on_ports_scanned(vec!["COM1".to_string()], &ts());
    assert!(buffer_text(&app).contains("New port detected: COM1"));
    assert_eq!(app.port_names, vec!["COM1".to_string()]);

    // same set again: no new markers, snapshot kept
    let before = buffer_text(&app);
    app.on_ports_scanned(vec!["COM1".to_string()], &ts());
    assert_eq!(buffer_text(&app), before);

    // one attached, one removed
    app.on_ports_scanned(vec!["COM2".to_string()], &ts());
    let text = buffer_text(&app);
    assert!(text.contains("New port detected: COM2"));
    assert!(text.contains("Port removed: COM1"));
    assert_eq!(app.port_names, vec!["COM2".to_string()]);
}

#[test]
fn signal_lines_forward_only_when_connected() {
    let mut app = ComAnalyzerApp::new(&ts());
    assert!(!app.set_dtr(true));
    assert!(app.dtr_state);
    app.connected = true;
    assert!(app.set_rts(true));
    assert!(app.rts_state);
}

#[test]
fn clear_buffer_blanks_display() {
    let mut app = ComAnalyzerApp::new(&ts());
    app.on_bytes_received(b"data", &ts());
    app.clear_buffer();
    assert_eq!(app.receive_buffer.len(), 0);
    assert_eq!(app.receive_buffer_display, "");
}

#[test]
fn view_mode_changes_render() {
    let mut app = ComAnalyzerApp::new(&ts());
    app.on_bytes_received(b"Hi", &ts());
    app.view_mode = ViewMode::Hex;
    app.update_display_buffer();
    assert_eq!(
        app.receive_buffer_display,
        "0000  48 69                                              Hi\n"
    );
}

#[test]
fn error_message_helpers() {
    let mut app = ComAnalyzerApp::new(&ts());
    app.set_error("oops".to_string());
    assert_eq!(app.error_message.as_deref(), Some("oops"));
    app.clear_error();
    assert!(app.error_message.is_none());
}

#[test]
fn raw_send_counts_without_echo() {
    let mut app = ComAnalyzerApp::new(&ts());
    app.logging_enabled = true;
    app.send_buffer = "keep me".to_string();
    app.on_raw_send_result(Some(2), b"\r\n", &ts());
    assert_eq!(app.bytes_sent, 2);
    assert_eq!(app.send_buffer, "keep me");
    assert_eq!(buffer_text(&app), "");
    assert_eq!(app.log_entries.len(), 1);
    assert_eq!(app.log_entries[0].data, b"\r\n".to_vec());
    app.on_raw_send_result(None, b"\n", &ts());
    assert_eq!(app.error_message.as_deref(), Some("Send failed"));
}
