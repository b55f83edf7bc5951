//! The analyzer core: connection lifecycle, automatic reconnection, port
//! scanning, receive/send bookkeeping and the marker lines they inject into
//! the display buffer.
//!
//! The core is driven by events: the caller owns the transport handle and
//! the clocks, performs the reads, writes and opens, and reports the
//! outcomes here together with the current time. Every decision — what may
//! be attempted, what is recorded, what the buffer and the display hold
//! afterwards — is made and specified in this module.

use vstd::prelude::*;
use vstd::string::StringExecFns;
use vstd::utf8::encode_utf8;
use crate::buffer::BufferStore;
use crate::buffer::spec_append;
use crate::clock::Timestamp;
use crate::clock::spec_datetime;
use crate::clock::spec_datetime_millis;
use crate::clock::dec_rep;
use crate::clock::format_datetime;
use crate::codec::ViewMode;
use crate::codec::spec_render;
use crate::codec::render;
use crate::codec::lossy_decode;
use crate::codec::spec_hex_tokens;
use crate::codec::format_hex_tokens;
use crate::codec::parse_hex_input;
use crate::codec::spec_tokens;
use crate::codec::spec_token_values;
use crate::codec::all_tokens_valid;
use crate::codec::first_invalid_token;
use crate::codec::HexParseError;
use crate::filter::ContentFilter;
use crate::filter::pattern_valid;
use crate::logging::DataLogEntry;
use crate::logging::Direction;
use crate::logging::create_log_entry;
use crate::logging::default_log_file_name;
use crate::logging::spec_log_file_name;
use crate::serial::DataBits;
use crate::serial::StopBits;
use crate::serial::Parity;
use crate::serial::FlowControl;
use crate::serial::LineEnding;
use crate::serial::SendMode;
use crate::serial::spec_baud_ok;
use crate::serial::dec_value;
use crate::serial::parse_baud_rate;

verus! {

/// Bytes asked of the transport in one non-blocking read.
pub const SERIAL_READ_BUFFER_SIZE: usize = 1024;

/// Read timeout handed to the transport so a poll tick stays bounded.
pub const READ_TIMEOUT_MS: u64 = 10;

/// Default delay between reconnect attempts.
pub const DEFAULT_RECONNECT_DELAY_MS: u64 = 2000;

/// Default interval between endpoint scans.
pub const DEFAULT_PORT_SCAN_INTERVAL_MS: u64 = 3000;

/// Why an open attempt was not started.
#[derive(Debug, Clone, Copy, PartialEq, Eq, Structural)]
pub enum ConfigError {
    NoPortSelected,
    InvalidBaudRate,
}

impl ConfigError {
    /// The message shown for this error.
    pub open spec fn spec_message(self) -> Seq<char> {
        match self {
            ConfigError::NoPortSelected => lit_msg_no_port(),
            ConfigError::InvalidBaudRate => lit_msg_bad_baud(),
        }
    }

    pub fn message(&self) -> (s: String)
        ensures
            s@ == self.spec_message(),
    {
        proof {
            reveal_strlit("Please select a port");
            reveal_strlit("Invalid baud rate");
        }
        match self {
            ConfigError::NoPortSelected => String::from_str("Please select a port"),
            ConfigError::InvalidBaudRate => String::from_str("Invalid baud rate"),
        }
    }
}

/// Everything the caller needs to open the transport.
pub struct ConnectParams {
    pub port_name: String,
    pub baud_rate: u32,
    pub data_bits: DataBits,
    pub stop_bits: StopBits,
    pub parity: Parity,
    pub flow_control: FlowControl,
    pub read_timeout_ms: u64,
}

/// The text `Connected to `.
pub open spec fn lit_connected_to() -> Seq<char> {
    seq!['C', 'o', 'n', 'n', 'e', 'c', 't', 'e', 'd', ' ', 't', 'o', ' ']
}

/// The text ` at `.
pub open spec fn lit_at() -> Seq<char> {
    seq![' ', 'a', 't', ' ']
}

/// The text ` baud\n`.
pub open spec fn lit_baud() -> Seq<char> {
    seq![' ', 'b', 'a', 'u', 'd', '\n']
}

/// The text `Disconnected\n`.
pub open spec fn lit_disconnected() -> Seq<char> {
    seq!['D', 'i', 's', 'c', 'o', 'n', 'n', 'e', 'c', 't', 'e', 'd', '\n']
}

/// The text `Connection lost to `.
pub open spec fn lit_connection_lost_to() -> Seq<char> {
    seq!['C', 'o', 'n', 'n', 'e', 'c', 't', 'i', 'o', 'n', ' ', 'l', 'o', 's', 't', ' ', 't', 'o', ' ']
}

/// The text `unknown`.
pub open spec fn lit_unknown() -> Seq<char> {
    seq!['u', 'n', 'k', 'n', 'o', 'w', 'n']
}

/// The text `Reconnected successfully\n`.
pub open spec fn lit_reconnected_line() -> Seq<char> {
    seq!['R', 'e', 'c', 'o', 'n', 'n', 'e', 'c', 't', 'e', 'd', ' ', 's', 'u', 'c', 'c', 'e', 's', 's', 'f', 'u', 'l', 'l', 'y', '\n']
}

/// The text `New port detected: `.
pub open spec fn lit_new_port() -> Seq<char> {
    seq!['N', 'e', 'w', ' ', 'p', 'o', 'r', 't', ' ', 'd', 'e', 't', 'e', 'c', 't', 'e', 'd', ':', ' ']
}

/// The text `Port removed: `.
pub open spec fn lit_port_removed() -> Seq<char> {
    seq!['P', 'o', 'r', 't', ' ', 'r', 'e', 'm', 'o', 'v', 'e', 'd', ':', ' ']
}

/// The text `TX: `.
pub open spec fn lit_tx() -> Seq<char> {
    seq!['T', 'X', ':', ' ']
}

/// The text `TX [hex]: `.
pub open spec fn lit_tx_hex() -> Seq<char> {
    seq!['T', 'X', ' ', '[', 'h', 'e', 'x', ']', ':', ' ']
}

/// The text `Connection lost. Auto-reconnecting...`.
pub open spec fn lit_msg_lost_auto() -> Seq<char> {
    seq!['C', 'o', 'n', 'n', 'e', 'c', 't', 'i', 'o', 'n', ' ', 'l', 'o', 's', 't', '.', ' ', 'A', 'u', 't', 'o', '-', 'r', 'e', 'c', 'o', 'n', 'n', 'e', 'c', 't', 'i', 'n', 'g', '.', '.', '.']
}

/// The text `Connection lost. Device disconnected.`.
pub open spec fn lit_msg_lost() -> Seq<char> {
    seq!['C', 'o', 'n', 'n', 'e', 'c', 't', 'i', 'o', 'n', ' ', 'l', 'o', 's', 't', '.', ' ', 'D', 'e', 'v', 'i', 'c', 'e', ' ', 'd', 'i', 's', 'c', 'o', 'n', 'n', 'e', 'c', 't', 'e', 'd', '.']
}

/// The text `Reconnected!`.
pub open spec fn lit_msg_reconnected() -> Seq<char> {
    seq!['R', 'e', 'c', 'o', 'n', 'n', 'e', 'c', 't', 'e', 'd', '!']
}

/// The text `Send failed`.
pub open spec fn lit_msg_send_failed() -> Seq<char> {
    seq!['S', 'e', 'n', 'd', ' ', 'f', 'a', 'i', 'l', 'e', 'd']
}

/// The text `Invalid regex: `.
pub open spec fn lit_msg_invalid_regex() -> Seq<char> {
    seq!['I', 'n', 'v', 'a', 'l', 'i', 'd', ' ', 'r', 'e', 'g', 'e', 'x', ':', ' ']
}

/// The text `Failed to open port: `.
pub open spec fn lit_msg_open_failed() -> Seq<char> {
    seq!['F', 'a', 'i', 'l', 'e', 'd', ' ', 't', 'o', ' ', 'o', 'p', 'e', 'n', ' ', 'p', 'o', 'r', 't', ':', ' ']
}

/// The text `Please select a port`.
pub open spec fn lit_msg_no_port() -> Seq<char> {
    seq!['P', 'l', 'e', 'a', 's', 'e', ' ', 's', 'e', 'l', 'e', 'c', 't', ' ', 'a', ' ', 'p', 'o', 'r', 't']
}

/// The text `Invalid baud rate`.
pub open spec fn lit_msg_bad_baud() -> Seq<char> {
    seq!['I', 'n', 'v', 'a', 'l', 'i', 'd', ' ', 'b', 'a', 'u', 'd', ' ', 'r', 'a', 't', 'e']
}
// ---------------------------------------------------------------------------
// Marker lines
// ---------------------------------------------------------------------------
/// `[<timestamp>] `, the prefix of every marker line.
pub open spec fn spec_ts_prefix(ts: Timestamp) -> Seq<char> {
    seq!['['] + spec_datetime(ts) + seq![']', ' ']
}

/// Marker injected when a connection opens.
pub open spec fn spec_connect_marker(ts: Timestamp, port: Seq<char>, baud: u32) -> Seq<char> {
    spec_ts_prefix(ts) + lit_connected_to() + port + lit_at() + dec_rep(baud as nat) + lit_baud()
}

/// Marker injected when the user disconnects.
pub open spec fn spec_disconnect_marker(ts: Timestamp) -> Seq<char> {
    spec_ts_prefix(ts) + lit_disconnected()
}

/// Marker injected when a read fails fatally.
pub open spec fn spec_lost_marker(ts: Timestamp, port: Seq<char>) -> Seq<char> {
    seq!['\n'] + spec_ts_prefix(ts) + lit_connection_lost_to() + port + seq!['\n']
}

/// Marker injected once when a reconnect attempt succeeds.
pub open spec fn spec_reconnected_marker(ts: Timestamp) -> Seq<char> {
    spec_ts_prefix(ts) + lit_reconnected_line()
}

/// Marker injected when a scan finds a new endpoint.
pub open spec fn spec_attached_marker(ts: Timestamp, name: Seq<char>) -> Seq<char> {
    spec_ts_prefix(ts) + lit_new_port() + name + seq!['\n']
}

/// Marker injected when a scan finds an endpoint gone.
pub open spec fn spec_removed_marker(ts: Timestamp, name: Seq<char>) -> Seq<char> {
    spec_ts_prefix(ts) + lit_port_removed() + name + seq!['\n']
}

/// Echo line for sent text.
pub open spec fn spec_tx_marker(text: Seq<char>) -> Seq<char> {
    lit_tx() + text + seq!['\n']
}

/// Echo line for sent hex bytes.
pub open spec fn spec_tx_hex_marker(data: Seq<u8>) -> Seq<char> {
    lit_tx_hex() + spec_hex_tokens(data) + seq!['\n']
}

fn ts_prefix(now: &Timestamp) -> (s: String)
    requires
        now.wf(),
    ensures
        s@ == spec_ts_prefix(*now),
{
    proof {
        reveal_strlit("[");
        reveal_strlit("] ");
    }
    let mut out = String::from_str("[");
    let dt = format_datetime(now);
    out.append(dt.as_str());
    out.append("] ");
    assert(out@ =~= spec_ts_prefix(*now));
    out
}

// ---------------------------------------------------------------------------
// The analyzer core
// ---------------------------------------------------------------------------
/// State of the analyzer: connection settings, the bounded receive buffer
/// and its rendered form, reconnect and scan timers, logging and filtering.
pub struct ComAnalyzerApp {
    // Connection settings
    pub selected_port: Option<String>,
    pub baud_rate: String,
    pub data_bits: DataBits,
    pub stop_bits: StopBits,
    pub parity: Parity,
    pub flow_control: FlowControl,
    pub connected: bool,
    // Display
    pub receive_buffer: BufferStore,
    pub receive_buffer_display: String,
    pub send_buffer: String,
    pub view_mode: ViewMode,
    pub strip_ansi: bool,
    pub auto_scroll: bool,
    // Signal lines
    pub dtr_state: bool,
    pub rts_state: bool,
    // Reconnect
    pub auto_reconnect: bool,
    pub reconnect_delay_ms: u64,
    pub reconnecting: bool,
    pub last_reconnect_attempt_ms: u64,
    // Port scanning
    pub auto_scan_ports: bool,
    pub port_scan_interval_ms: u64,
    pub last_port_scan_ms: u64,
    pub port_names: Vec<String>,
    // Logging
    pub logging_enabled: bool,
    pub log_file_path: String,
    pub log_entries: Vec<DataLogEntry>,
    // Filtering
    pub filter_enabled: bool,
    pub filter: ContentFilter,
    // Loopback provisioning
    pub virtual_com_port: Option<String>,
    // Send options
    pub send_mode: SendMode,
    pub line_ending: LineEnding,
    // Status
    pub error_message: Option<String>,
    pub bytes_received: usize,
    pub bytes_sent: usize,
}

impl ComAnalyzerApp {
    /// A fresh, disconnected analyzer with the default settings; the log
    /// file name is derived from `now`.
    pub fn new(now: &Timestamp) -> (r: ComAnalyzerApp)
        requires
            now.wf(),
        ensures
            r.selected_port is None,
            r.baud_rate@ == seq!['9', '6', '0', '0'],
            r.data_bits == DataBits::Eight,
            r.stop_bits == StopBits::One,
            r.parity == Parity::NoParity,
            r.flow_control == FlowControl::NoFlowControl,
            !r.connected,
            r.receive_buffer@ == Seq::<u8>::empty(),
            r.receive_buffer_display@ == Seq::<char>::empty(),
            r.send_buffer@ == Seq::<char>::empty(),
            r.view_mode == ViewMode::Ascii,
            r.strip_ansi,
            r.auto_scroll,
            !r.dtr_state && !r.rts_state,
            !r.auto_reconnect,
            r.reconnect_delay_ms == DEFAULT_RECONNECT_DELAY_MS,
            !r.reconnecting,
            r.last_reconnect_attempt_ms == 0,
            r.auto_scan_ports,
            r.port_scan_interval_ms == DEFAULT_PORT_SCAN_INTERVAL_MS,
            r.last_port_scan_ms == 0,
            r.port_names@ == Seq::<String>::empty(),
            !r.logging_enabled,
            r.log_file_path@ == spec_log_file_name(*now),
            r.log_entries@ == Seq::<DataLogEntry>::empty(),
            !r.filter_enabled,
            r.filter.active_pattern() is None,
            r.virtual_com_port is None,
            r.send_mode == SendMode::Ascii,
            r.line_ending == LineEnding::CrLf,
            r.error_message is None,
            r.bytes_received == 0 && r.bytes_sent == 0,
    {
        proof {
            reveal_strlit("9600");
        }
        ComAnalyzerApp {
            selected_port: None,
            baud_rate: String::from_str("9600"),
            data_bits: DataBits::Eight,
            stop_bits: StopBits::One,
            parity: Parity::NoParity,
            flow_control: FlowControl::NoFlowControl,
            connected: false,
            receive_buffer: BufferStore::new(),
            receive_buffer_display: String::new(),
            send_buffer: String::new(),
            view_mode: ViewMode::Ascii,
            strip_ansi: true,
            auto_scroll: true,
            dtr_state: false,
            rts_state: false,
            auto_reconnect: false,
            reconnect_delay_ms: DEFAULT_RECONNECT_DELAY_MS,
            reconnecting: false,
            last_reconnect_attempt_ms: 0,
            auto_scan_ports: true,
            port_scan_interval_ms: DEFAULT_PORT_SCAN_INTERVAL_MS,
            last_port_scan_ms: 0,
            port_names: Vec::new(),
            logging_enabled: false,
            log_file_path: default_log_file_name(now),
            log_entries: Vec::new(),
            filter_enabled: false,
            filter: ContentFilter::new(),
            virtual_com_port: None,
            send_mode: SendMode::Ascii,
            line_ending: LineEnding::CrLf,
            error_message: None,
            bytes_received: 0,
            bytes_sent: 0,
        }
    }

    /// Record the endpoints known at startup, without emitting markers.
    pub fn set_initial_ports(&mut self, names: Vec<String>)
        ensures
            *final(self) == (ComAnalyzerApp { port_names: final(self).port_names, ..*old(self) }),
            final(self).port_names == names,
    {
        self.port_names = names;
    }

    /// Set a status message.
    pub fn set_error(&mut self, message: String)
        ensures
            *final(self) == (ComAnalyzerApp { error_message: final(self).error_message, ..*old(self) }),
            final(self).error_message == Some(message),
    {
        self.error_message = Some(message);
    }

    /// Dismiss the status message.
    pub fn clear_error(&mut self)
        ensures
            *final(self) == (ComAnalyzerApp { error_message: None, ..*old(self) }),
    {
        self.error_message = None;
    }

    /// Re-render the display text from the receive buffer under the current
    /// view mode and ANSI setting.
    pub fn update_display_buffer(&mut self)
        ensures
            *final(self) == (ComAnalyzerApp {
                receive_buffer_display: final(self).receive_buffer_display,
                ..*old(self)
            }),
            final(self).receive_buffer_display@ == spec_render(
                old(self).receive_buffer@,
                old(self).view_mode,
                old(self).strip_ansi,
            ),
    {
        self.receive_buffer_display = render(
            self.receive_buffer.contents().as_slice(),
            self.view_mode,
            self.strip_ansi,
        );
    }

    /// Whether `data` passes the active content filter.
    pub fn matches_filter(&self, data: &[u8]) -> (r: bool)
        ensures
            r == self.filter.spec_matches(lossy_decode(data@)),
    {
        self.filter.matches(data)
    }

    /// Install a new filter pattern. An empty pattern clears the matcher; a
    /// pattern that fails to compile leaves the previous matcher active and
    /// surfaces the error; a valid one replaces the matcher and clears any
    /// previous error.
    pub fn update_filter(&mut self, pattern: &str)
        ensures
            *final(self) == (ComAnalyzerApp {
                filter: final(self).filter,
                error_message: final(self).error_message,
                ..*old(self)
            }),
            final(self).filter.pattern@ == pattern@,
            pattern@.len() == 0 ==> final(self).filter.active_pattern() is None
                && final(self).error_message == old(self).error_message,
            pattern@.len() > 0 && pattern_valid(pattern@) ==> final(self).filter.active_pattern()
                == Some(pattern@) && final(self).error_message is None,
            pattern@.len() > 0 && !pattern_valid(pattern@) ==> final(self).filter.active_pattern()
                == old(self).filter.active_pattern() && final(self).error_message is Some,
    {
        let err = self.filter.set_pattern(pattern);
        match err {
            None => {
                if !pattern.is_empty() {
                    self.error_message = None;
                }
            },
            Some(e) => {
                proof {
                    reveal_strlit("Invalid regex: ");
                }
                let mut msg = String::from_str("Invalid regex: ");
                msg.append(e.as_str());
                assert(msg@ =~= lit_msg_invalid_regex() + e@);
                self.error_message = Some(msg);
            },
        }
    }

    /// Record the requested terminal-ready line state; the caller forwards
    /// it to the transport exactly when a handle exists (connected).
    pub fn set_dtr(&mut self, state: bool) -> (forward: bool)
        ensures
            *final(self) == (ComAnalyzerApp { dtr_state: state, ..*old(self) }),
            forward == old(self).connected,
    {
        self.dtr_state = state;
        self.connected
    }

    /// Record the requested request-to-send line state; the caller forwards
    /// it to the transport exactly when a handle exists (connected).
    pub fn set_rts(&mut self, state: bool) -> (forward: bool)
        ensures
            *final(self) == (ComAnalyzerApp { rts_state: state, ..*old(self) }),
            forward == old(self).connected,
    {
        self.rts_state = state;
        self.connected
    }

    /// Drop the buffered bytes and blank the display.
    pub fn clear_buffer(&mut self)
        ensures
            *final(self) == (ComAnalyzerApp {
                receive_buffer: final(self).receive_buffer,
                receive_buffer_display: final(self).receive_buffer_display,
                ..*old(self)
            }),
            final(self).receive_buffer@ == Seq::<u8>::empty(),
            final(self).receive_buffer_display@ == Seq::<char>::empty(),
    {
        self.receive_buffer.clear();
        self.receive_buffer_display = String::new();
    }

    /// Validate the settings for an open attempt: an endpoint must be
    /// selected and the rate text must be numeric. Nothing changes here; on
    /// success the caller opens the transport with the returned parameters
    /// and reports the outcome back.
    pub fn prepare_connect(&self) -> (r: Result<ConnectParams, ConfigError>)
        ensures
            self.selected_port is None ==> r == Err::<ConnectParams, ConfigError>(
                ConfigError::NoPortSelected,
            ),
            self.selected_port is Some && !spec_baud_ok(self.baud_rate@) ==> r == Err::<
                ConnectParams,
                ConfigError,
            >(ConfigError::InvalidBaudRate),
            self.selected_port is Some && spec_baud_ok(self.baud_rate@) ==> (r matches Ok(p)
                && p.port_name@ == self.selected_port->0@ && p.baud_rate == dec_value(
                self.baud_rate@,
            ) && p.data_bits == self.data_bits && p.stop_bits == self.stop_bits && p.parity
                == self.parity && p.flow_control == self.flow_control && p.read_timeout_ms
                == READ_TIMEOUT_MS),
    {
        match &self.selected_port {
            None => Err(ConfigError::NoPortSelected),
            Some(port) => match parse_baud_rate(self.baud_rate.as_str()) {
                None => Err(ConfigError::InvalidBaudRate),
                Some(baud) => Ok(
                    ConnectParams {
                        port_name: port.clone(),
                        baud_rate: baud,
                        data_bits: self.data_bits,
                        stop_bits: self.stop_bits,
                        parity: self.parity,
                        flow_control: self.flow_control,
                        read_timeout_ms: READ_TIMEOUT_MS,
                    },
                ),
            },
        }
    }

    /// Append one marker line to the receive buffer and re-render.
    fn push_marker(&mut self, m: &String)
        ensures
            *final(self) == (ComAnalyzerApp {
                receive_buffer: final(self).receive_buffer,
                receive_buffer_display: final(self).receive_buffer_display,
                ..*old(self)
            }),
            final(self).receive_buffer@ == spec_append(old(self).receive_buffer@, encode_utf8(m@)),
            final(self).receive_buffer_display@ == spec_render(
                final(self).receive_buffer@,
                old(self).view_mode,
                old(self).strip_ansi,
            ),
    {
        self.receive_buffer.append(m.as_str().as_bytes());
        self.update_display_buffer();
    }

    /// Note a successful open: the analyzer is connected, a marker with the
    /// endpoint and rate is appended, and any status message is dismissed.
    pub fn on_connect_success(&mut self, params: &ConnectParams, now: &Timestamp)
        requires
            now.wf(),
        ensures
            *final(self) == (ComAnalyzerApp {
                connected: true,
                error_message: None,
                receive_buffer: final(self).receive_buffer,
                receive_buffer_display: final(self).receive_buffer_display,
                ..*old(self)
            }),
            final(self).receive_buffer@ == spec_append(
                old(self).receive_buffer@,
                encode_utf8(spec_connect_marker(*now, params.port_name@, params.baud_rate)),
            ),
            final(self).receive_buffer_display@ == spec_render(
                final(self).receive_buffer@,
                old(self).view_mode,
                old(self).strip_ansi,
            ),
    {
        self.error_message = None;
        self.connected = true;
        proof {
            reveal_strlit("Connected to ");
            reveal_strlit(" at ");
            reveal_strlit(" baud\n");
        }
        let mut m = ts_prefix(now);
        m.append("Connected to ");
        m.append(params.port_name.as_str());
        m.append(" at ");
        let baud = crate::clock::format_u32(params.baud_rate);
        m.append(baud.as_str());
        m.append(" baud\n");
        assert(m@ =~= spec_connect_marker(*now, params.port_name@, params.baud_rate));
        self.push_marker(&m);
    }

    /// Note a failed open: the reason is surfaced as a message and the
    /// state stays as it was.
    pub fn on_connect_failure(&mut self, reason: &str)
        ensures
            *final(self) == (ComAnalyzerApp {
                error_message: final(self).error_message,
                ..*old(self)
            }),
            final(self).error_message matches Some(m) && m@ == lit_msg_open_failed() + reason@,
    {
        proof {
            reveal_strlit("Failed to open port: ");
        }
        let mut msg = String::from_str("Failed to open port: ");
        msg.append(reason);
        assert(msg@ =~= lit_msg_open_failed() + reason@);
        self.error_message = Some(msg);
    }

    /// User-requested disconnect: clears the connection and any pending
    /// reconnect unconditionally (idempotent), and injects a marker.
    pub fn disconnect(&mut self, now: &Timestamp)
        requires
            now.wf(),
        ensures
            *final(self) == (ComAnalyzerApp {
                connected: false,
                reconnecting: false,
                receive_buffer: final(self).receive_buffer,
                receive_buffer_display: final(self).receive_buffer_display,
                ..*old(self)
            }),
            final(self).receive_buffer@ == spec_append(
                old(self).receive_buffer@,
                encode_utf8(spec_disconnect_marker(*now)),
            ),
            final(self).receive_buffer_display@ == spec_render(
                final(self).receive_buffer@,
                old(self).view_mode,
                old(self).strip_ansi,
            ),
    {
        self.connected = false;
        self.reconnecting = false;
        proof {
            reveal_strlit("Disconnected\n");
        }
        let mut m = ts_prefix(now);
        m.append("Disconnected\n");
        assert(m@ =~= spec_disconnect_marker(*now));
        self.push_marker(&m);
    }

    /// A fatal read error: the handle is gone. With auto-reconnect enabled
    /// the state moves to reconnecting, otherwise it stays disconnected;
    /// either way a marker is appended and a message surfaced.
    pub fn on_connection_lost(&mut self, now: &Timestamp)
        requires
            now.wf(),
        ensures
            *final(self) == (ComAnalyzerApp {
                connected: false,
                reconnecting: old(self).auto_reconnect,
                error_message: final(self).error_message,
                receive_buffer: final(self).receive_buffer,
                receive_buffer_display: final(self).receive_buffer_display,
                ..*old(self)
            }),
            final(self).receive_buffer@ == spec_append(
                old(self).receive_buffer@,
                encode_utf8(spec_lost_marker(*now, spec_lost_port(old(self).selected_port))),
            ),
            final(self).receive_buffer_display@ == spec_render(
                final(self).receive_buffer@,
                old(self).view_mode,
                old(self).strip_ansi,
            ),
            final(self).error_message matches Some(msg) && msg@ == (if old(self).auto_reconnect {
                lit_msg_lost_auto()
            } else {
                lit_msg_lost()
            }),
    {
        proof {
            reveal_strlit("\n");
            reveal_strlit("Connection lost to ");
            reveal_strlit("unknown");
            reveal_strlit("Connection lost. Auto-reconnecting...");
            reveal_strlit("Connection lost. Device disconnected.");
        }
        let mut m = String::from_str("\n");
        let prefix = ts_prefix(now);
        m.append(prefix.as_str());
        m.append("Connection lost to ");
        match &self.selected_port {
            Some(p) => m.append(p.as_str()),
            None => m.append("unknown"),
        }
        m.append("\n");
        assert(m@ =~= spec_lost_marker(*now, spec_lost_port(self.selected_port)));
        self.push_marker(&m);
        self.connected = false;
        if self.auto_reconnect {
            self.reconnecting = true;
            self.error_message = Some(String::from_str("Connection lost. Auto-reconnecting..."));
        } else {
            self.reconnecting = false;
            self.error_message = Some(String::from_str("Connection lost. Device disconnected."));
        }
    }

    /// Decide whether a reconnect attempt is due. Once the configured delay
    /// has elapsed the attempt time is re-armed; the caller then reopens the
    /// transport (there must be a selected endpoint) and reports the
    /// outcome. No attempt is signalled before the delay has passed.
    pub fn tick_reconnect(&mut self, now_ms: u64) -> (attempt: bool)
        ensures
            ({
                let due = old(self).reconnecting && !old(self).connected && now_ms >= old(self).last_reconnect_attempt_ms + old(self).reconnect_delay_ms;
                &&& *final(self) == (ComAnalyzerApp {
                    last_reconnect_attempt_ms: final(self).last_reconnect_attempt_ms,
                    ..*old(self)
                })
                &&& final(self).last_reconnect_attempt_ms == (if due {
                    now_ms
                } else {
                    old(self).last_reconnect_attempt_ms
                })
                &&& attempt == (due && old(self).selected_port is Some)
            }),
    {
        if self.reconnecting && !self.connected && now_ms >= self.last_reconnect_attempt_ms
            && now_ms - self.last_reconnect_attempt_ms >= self.reconnect_delay_ms {
            self.last_reconnect_attempt_ms = now_ms;
            self.selected_port.is_some()
        } else {
            false
        }
    }

    /// Note a successful reopen while reconnecting: the reconnecting state
    /// ends, exactly one reconnected marker is appended, and a message is
    /// surfaced. The caller records the open itself through
    /// `on_connect_success` first.
    pub fn on_reconnect_success(&mut self, now: &Timestamp)
        requires
            now.wf(),
        ensures
            *final(self) == (ComAnalyzerApp {
                reconnecting: false,
                error_message: final(self).error_message,
                receive_buffer: final(self).receive_buffer,
                receive_buffer_display: final(self).receive_buffer_display,
                ..*old(self)
            }),
            final(self).receive_buffer@ == spec_append(
                old(self).receive_buffer@,
                encode_utf8(spec_reconnected_marker(*now)),
            ),
            final(self).receive_buffer_display@ == spec_render(
                final(self).receive_buffer@,
                old(self).view_mode,
                old(self).strip_ansi,
            ),
            final(self).error_message matches Some(msg) && msg@ == lit_msg_reconnected(),
    {
        self.reconnecting = false;
        proof {
            reveal_strlit("Reconnected successfully\n");
            reveal_strlit("Reconnected!");
        }
        let mut m = ts_prefix(now);
        m.append("Reconnected successfully\n");
        assert(m@ =~= spec_reconnected_marker(*now));
        self.push_marker(&m);
        self.error_message = Some(String::from_str("Reconnected!"));
    }
}

/// The endpoint named in a connection-lost marker: the selected one, or
/// `unknown` when none is selected.
pub open spec fn spec_lost_port(port: Option<String>) -> Seq<char> {
    match port {
        Some(p) => p@,
        None => lit_unknown(),
    }
}


// ---------------------------------------------------------------------------
// Port scanning
// ---------------------------------------------------------------------------
/// Whether one of `names` reads as `text`.
pub open spec fn names_contain(names: Seq<String>, text: Seq<char>) -> bool {
    exists|i: int| 0 <= i < names.len() && names[i]@ == text
}

/// Whether two name lists read the same, element for element.
pub open spec fn names_equal(a: Seq<String>, b: Seq<String>) -> bool {
    a.len() == b.len() && (forall|i: int| 0 <= i < a.len() ==> a[i]@ == b[i]@)
}

/// The attached markers for the first `k` new names that are not in the old
/// snapshot, in scan order.
pub open spec fn spec_added_markers(
    ts: Timestamp,
    olds: Seq<String>,
    news: Seq<String>,
    k: int,
) -> Seq<char>
    decreases k,
{
    if k <= 0 {
        Seq::empty()
    } else {
        spec_added_markers(ts, olds, news, k - 1) + (if !names_contain(olds, news[k - 1]@) {
            spec_attached_marker(ts, news[k - 1]@)
        } else {
            Seq::empty()
        })
    }
}

/// The removed markers for the first `k` old names that are gone from the
/// new snapshot, in snapshot order.
pub open spec fn spec_removed_markers(
    ts: Timestamp,
    olds: Seq<String>,
    news: Seq<String>,
    k: int,
) -> Seq<char>
    decreases k,
{
    if k <= 0 {
        Seq::empty()
    } else {
        spec_removed_markers(ts, olds, news, k - 1) + (if !names_contain(news, olds[k - 1]@) {
            spec_removed_marker(ts, olds[k - 1]@)
        } else {
            Seq::empty()
        })
    }
}

/// All markers one scan injects: attached lines first, then removed lines.
pub open spec fn spec_scan_markers(ts: Timestamp, olds: Seq<String>, news: Seq<String>) -> Seq<
    char,
> {
    spec_added_markers(ts, olds, news, news.len() as int) + spec_removed_markers(
        ts,
        olds,
        news,
        olds.len() as int,
    )
}

fn contains_name(names: &Vec<String>, text: &String) -> (r: bool)
    ensures
        r == names_contain(names@, text@),
{
    let n = names.len();
    let mut i: usize = 0;
    while i < n
        invariant
            n == names@.len(),
            i <= n,
            forall|k: int| 0 <= k < i ==> names@[k]@ != text@,
        decreases n - i,
    {
        if names[i].eq(text) {
            return true;
        }
        i = i + 1;
    }
    false
}

fn names_equal_exec(a: &Vec<String>, b: &Vec<String>) -> (r: bool)
    ensures
        r == names_equal(a@, b@),
{
    let n = a.len();
    if n != b.len() {
        return false;
    }
    let mut i: usize = 0;
    while i < n
        invariant
            n == a@.len() == b@.len(),
            i <= n,
            forall|k: int| 0 <= k < i ==> a@[k]@ == b@[k]@,
        decreases n - i,
    {
        if !a[i].eq(&b[i]) {
            return false;
        }
        i = i + 1;
    }
    true
}

impl ComAnalyzerApp {
    /// Decide whether an endpoint scan is due; when it is, the scan time is
    /// re-armed and the caller enumerates the endpoints and reports them to
    /// `on_ports_scanned`. Scanning is independent of the connection state.
    pub fn tick_port_scan(&mut self, now_ms: u64) -> (scan: bool)
        ensures
            scan == (old(self).auto_scan_ports && now_ms >= old(self).last_port_scan_ms + old(self).port_scan_interval_ms),
            *final(self) == (ComAnalyzerApp {
                last_port_scan_ms: final(self).last_port_scan_ms,
                ..*old(self)
            }),
            final(self).last_port_scan_ms == (if scan {
                now_ms
            } else {
                old(self).last_port_scan_ms
            }),
    {
        if self.auto_scan_ports && now_ms >= self.last_port_scan_ms && now_ms
            - self.last_port_scan_ms >= self.port_scan_interval_ms {
            self.last_port_scan_ms = now_ms;
            true
        } else {
            false
        }
    }

    /// Take in a fresh endpoint scan: every name only in the new list gets
    /// an attached marker, every name only in the old one a removed marker;
    /// the snapshot and the rendered display change only if the lists
    /// differ.
    pub fn on_ports_scanned(&mut self, names: Vec<String>, now: &Timestamp)
        requires
            now.wf(),
        ensures
            *final(self) == (ComAnalyzerApp {
                receive_buffer: final(self).receive_buffer,
                receive_buffer_display: final(self).receive_buffer_display,
                port_names: final(self).port_names,
                ..*old(self)
            }),
            final(self).receive_buffer@ == spec_append(
                old(self).receive_buffer@,
                encode_utf8(spec_scan_markers(*now, old(self).port_names@, names@)),
            ),
            names_equal(old(self).port_names@, names@) ==> final(self).port_names == old(self).port_names && final(self).receive_buffer_display == old(self).receive_buffer_display,
            !names_equal(old(self).port_names@, names@) ==> final(self).port_names == names && final(self).receive_buffer_display@ == spec_render(
                final(self).receive_buffer@,
                old(self).view_mode,
                old(self).strip_ansi,
            ),
    {
        let ghost ts = *now;
        let ghost olds = self.port_names@;
        let ghost news = names@;
        proof {
            reveal_strlit("New port detected: ");
            reveal_strlit("Port removed: ");
            reveal_strlit("\n");
        }
        let mut m = String::new();
        let n_new = names.len();
        let mut i: usize = 0;
        while i < n_new
            invariant
                n_new == news.len(),
                i <= n_new,
                names@ == news,
                self.port_names@ == olds,
                now.wf() && *now == ts,
                m@ == spec_added_markers(ts, olds, news, i as int),
            decreases n_new - i,
        {
            proof {
                reveal_strlit("New port detected: ");
                reveal_strlit("\n");
            }
            if !contains_name(&self.port_names, &names[i]) {
                let prefix = ts_prefix(now);
                m.append(prefix.as_str());
                m.append("New port detected: ");
                m.append(names[i].as_str());
                m.append("\n");
            }
            i = i + 1;
            assert(m@ =~= spec_added_markers(ts, olds, news, i as int));
        }
        assert(m@ =~= spec_added_markers(ts, olds, news, news.len() as int)
            + spec_removed_markers(ts, olds, news, 0));
        let n_old = self.port_names.len();
        let mut j: usize = 0;
        while j < n_old
            invariant
                n_old == olds.len(),
                j <= n_old,
                names@ == news,
                self.port_names@ == olds,
                now.wf() && *now == ts,
                m@ == spec_added_markers(ts, olds, news, news.len() as int)
                    + spec_removed_markers(ts, olds, news, j as int),
            decreases n_old - j,
        {
            proof {
                reveal_strlit("Port removed: ");
                reveal_strlit("\n");
            }
            if !contains_name(&names, &self.port_names[j]) {
                let prefix = ts_prefix(now);
                m.append(prefix.as_str());
                m.append("Port removed: ");
                m.append(self.port_names[j].as_str());
                m.append("\n");
            }
            j = j + 1;
            assert(m@ =~= spec_added_markers(ts, olds, news, news.len() as int)
                + spec_removed_markers(ts, olds, news, j as int));
        }
        self.receive_buffer.append(m.as_str().as_bytes());
        if !names_equal_exec(&self.port_names, &names) {
            self.port_names = names;
            self.update_display_buffer();
        }
    }

    // -----------------------------------------------------------------------
    // Receiving
    // -----------------------------------------------------------------------
    /// Take in bytes read from the transport: the received count grows
    /// (saturating), the transfer is logged when logging is on, and the
    /// bytes reach the bounded buffer and the display exactly when the
    /// content filter lets them pass. The log is never gated by the filter.
    pub fn on_bytes_received(&mut self, data: &[u8], now: &Timestamp)
        requires
            now.wf(),
        ensures
            *final(self) == (ComAnalyzerApp {
                receive_buffer: final(self).receive_buffer,
                receive_buffer_display: final(self).receive_buffer_display,
                log_entries: final(self).log_entries,
                bytes_received: final(self).bytes_received,
                ..*old(self)
            }),
            final(self).bytes_received == (if old(self).bytes_received + data@.len() > usize::MAX {
                usize::MAX as int
            } else {
                old(self).bytes_received + data@.len()
            }),
            old(self).logging_enabled ==> final(self).log_entries@.len() == old(self).log_entries@.len() + 1 && final(self).log_entries@.drop_last() == old(self).log_entries@ && final(self).log_entries@.last().timestamp@ == spec_datetime_millis(
                *now,
            ) && final(self).log_entries@.last().direction == Direction::Received && final(self).log_entries@.last().data@ == data@,
            !old(self).logging_enabled ==> final(self).log_entries == old(self).log_entries,
            ({
                let shown = !old(self).filter_enabled || old(self).filter.spec_matches(
                    lossy_decode(data@),
                );
                &&& shown ==> final(self).receive_buffer@ == spec_append(
                    old(self).receive_buffer@,
                    data@,
                ) && final(self).receive_buffer_display@ == spec_render(
                    final(self).receive_buffer@,
                    old(self).view_mode,
                    old(self).strip_ansi,
                )
                &&& !shown ==> final(self).receive_buffer == old(self).receive_buffer && final(self).receive_buffer_display == old(self).receive_buffer_display
            }),
    {
        self.bytes_received = self.bytes_received.saturating_add(data.len());
        if self.logging_enabled {
            let e = create_log_entry(Direction::Received, data, now);
            self.log_entries.push(e);
            assert(self.log_entries@.drop_last() =~= old(self).log_entries@);
        }
        let shown = if self.filter_enabled {
            self.filter.matches(data)
        } else {
            true
        };
        if shown {
            self.receive_buffer.append(data);
            self.update_display_buffer();
        }
    }

    // -----------------------------------------------------------------------
    // Sending
    // -----------------------------------------------------------------------
    /// The bytes a text send writes to the transport: the send box content
    /// followed by the configured line ending.
    pub fn prepare_send_data(&self) -> (data: Vec<u8>)
        ensures
            data@ == encode_utf8(self.send_buffer@) + self.line_ending.spec_bytes(),
    {
        let mut v = self.send_buffer.as_str().as_bytes_vec();
        let mut e = self.line_ending.as_bytes();
        v.append(&mut e);
        assert(v@ =~= encode_utf8(self.send_buffer@) + self.line_ending.spec_bytes());
        v
    }

    /// Take in the outcome of a text send. On acceptance of `n` bytes the
    /// sent counter grows by exactly `n` (saturating), the transfer is
    /// logged when logging is on, a `TX:` echo line is appended and the
    /// send box cleared; on failure only a message is surfaced.
    pub fn on_send_result(&mut self, accepted: Option<usize>, sent: &[u8], now: &Timestamp)
        requires
            now.wf(),
        ensures
            accepted is Some ==> *final(self) == (ComAnalyzerApp {
                bytes_sent: final(self).bytes_sent,
                log_entries: final(self).log_entries,
                receive_buffer: final(self).receive_buffer,
                receive_buffer_display: final(self).receive_buffer_display,
                send_buffer: final(self).send_buffer,
                ..*old(self)
            }),
            accepted matches Some(n) ==> final(self).bytes_sent == (if old(self).bytes_sent + n
                > usize::MAX {
                usize::MAX as int
            } else {
                old(self).bytes_sent + n
            }),
            accepted is Some && old(self).logging_enabled ==> final(self).log_entries@.len() == old(self).log_entries@.len() + 1 && final(self).log_entries@.drop_last() == old(self).log_entries@ && final(self).log_entries@.last().timestamp@ == spec_datetime_millis(
                *now,
            ) && final(self).log_entries@.last().direction == Direction::Sent && final(self).log_entries@.last().data@ == sent@,
            accepted is Some && !old(self).logging_enabled ==> final(self).log_entries == old(self).log_entries,
            accepted is Some ==> final(self).receive_buffer@ == spec_append(
                old(self).receive_buffer@,
                encode_utf8(spec_tx_marker(old(self).send_buffer@)),
            ) && final(self).receive_buffer_display@ == spec_render(
                final(self).receive_buffer@,
                old(self).view_mode,
                old(self).strip_ansi,
            ) && final(self).send_buffer@ == Seq::<char>::empty(),
            accepted is None ==> *final(self) == (ComAnalyzerApp {
                error_message: final(self).error_message,
                ..*old(self)
            }) && (final(self).error_message matches Some(msg) && msg@ == lit_msg_send_failed()),
    {
        match accepted {
            Some(n) => {
                self.bytes_sent = self.bytes_sent.saturating_add(n);
                if self.logging_enabled {
                    let e = create_log_entry(Direction::Sent, sent, now);
                    self.log_entries.push(e);
                    assert(self.log_entries@.drop_last() =~= old(self).log_entries@);
                }
                proof {
                    reveal_strlit("TX: ");
                    reveal_strlit("\n");
                }
                let mut m = String::from_str("TX: ");
                m.append(self.send_buffer.as_str());
                m.append("\n");
                assert(m@ =~= spec_tx_marker(self.send_buffer@));
                self.push_marker(&m);
                self.send_buffer = String::new();
            },
            None => {
                proof {
                    reveal_strlit("Send failed");
                }
                self.error_message = Some(String::from_str("Send failed"));
            },
        }
    }

    /// Parse the send box as hex byte tokens. On success the bytes to write
    /// are returned and nothing changes; a malformed box surfaces the exact
    /// parse error (empty input, or the first bad token) and returns
    /// nothing.
    pub fn prepare_send_hex(&mut self) -> (r: Option<Vec<u8>>)
        ensures
            ({
                let toks = spec_tokens(old(self).send_buffer@);
                &&& toks.len() > 0 && all_tokens_valid(toks) ==> *final(self) == *old(self) && (
                r matches Some(v) && v@ == spec_token_values(toks))
                &&& toks.len() == 0 ==> r is None && *final(self) == (ComAnalyzerApp {
                    error_message: final(self).error_message,
                    ..*old(self)
                }) && (final(self).error_message matches Some(msg) && msg@
                    == lit_msg_empty_input())
                &&& toks.len() > 0 && !all_tokens_valid(toks) ==> r is None && *final(self) == (
                ComAnalyzerApp { error_message: final(self).error_message, ..*old(self) }) && (
                final(self).error_message matches Some(msg) && msg@ == lit_msg_invalid_hex()
                    + toks[first_invalid_token(toks)] + seq!['\''])
            }),
    {
        match parse_hex_input(self.send_buffer.as_str()) {
            Ok(v) => Some(v),
            Err(HexParseError::EmptyInput) => {
                proof {
                    reveal_strlit("Empty input");
                }
                self.error_message = Some(String::from_str("Empty input"));
                None
            },
            Err(HexParseError::InvalidToken(t)) => {
                proof {
                    reveal_strlit("Invalid hex byte: '");
                    reveal_strlit("'");
                }
                let mut msg = String::from_str("Invalid hex byte: '");
                msg.append(t.as_str());
                msg.append("'");
                assert(msg@ =~= lit_msg_invalid_hex() + t@ + seq!['\'']);
                self.error_message = Some(msg);
                None
            },
        }
    }

    /// Take in the outcome of a raw write (preset control bytes): only the
    /// counter and the log change, no echo line is shown and the send box
    /// is kept; a failure surfaces a message.
    pub fn on_raw_send_result(&mut self, accepted: Option<usize>, sent: &[u8], now: &Timestamp)
        requires
            now.wf(),
        ensures
            accepted is Some ==> *final(self) == (ComAnalyzerApp {
                bytes_sent: final(self).bytes_sent,
                log_entries: final(self).log_entries,
                ..*old(self)
            }),
            accepted matches Some(n) ==> final(self).bytes_sent == (if old(self).bytes_sent + n
                > usize::MAX {
                usize::MAX as int
            } else {
                old(self).bytes_sent + n
            }),
            accepted is Some && old(self).logging_enabled ==> final(self).log_entries@.len() == old(self).log_entries@.len() + 1 && final(self).log_entries@.drop_last() == old(self).log_entries@ && final(self).log_entries@.last().timestamp@ == spec_datetime_millis(
                *now,
            ) && final(self).log_entries@.last().direction == Direction::Sent && final(self).log_entries@.last().data@ == sent@,
            accepted is Some && !old(self).logging_enabled ==> final(self).log_entries == old(self).log_entries,
            accepted is None ==> *final(self) == (ComAnalyzerApp {
                error_message: final(self).error_message,
                ..*old(self)
            }) && (final(self).error_message matches Some(msg) && msg@ == lit_msg_send_failed()),
    {
        match accepted {
            Some(n) => {
                self.bytes_sent = self.bytes_sent.saturating_add(n);
                if self.logging_enabled {
                    let e = create_log_entry(Direction::Sent, sent, now);
                    self.log_entries.push(e);
                    assert(self.log_entries@.drop_last() =~= old(self).log_entries@);
                }
            },
            None => {
                proof {
                    reveal_strlit("Send failed");
                }
                self.error_message = Some(String::from_str("Send failed"));
            },
        }
    }

    /// Take in the outcome of a hex send: like a text send, but the echo
    /// line shows the bytes as hex tokens.
    pub fn on_hex_send_result(&mut self, accepted: Option<usize>, sent: &[u8], now: &Timestamp)
        requires
            now.wf(),
        ensures
            accepted is Some ==> *final(self) == (ComAnalyzerApp {
                bytes_sent: final(self).bytes_sent,
                log_entries: final(self).log_entries,
                receive_buffer: final(self).receive_buffer,
                receive_buffer_display: final(self).receive_buffer_display,
                send_buffer: final(self).send_buffer,
                ..*old(self)
            }),
            accepted matches Some(n) ==> final(self).bytes_sent == (if old(self).bytes_sent + n
                > usize::MAX {
                usize::MAX as int
            } else {
                old(self).bytes_sent + n
            }),
            accepted is Some && old(self).logging_enabled ==> final(self).log_entries@.len() == old(self).log_entries@.len() + 1 && final(self).log_entries@.drop_last() == old(self).log_entries@ && final(self).log_entries@.last().timestamp@ == spec_datetime_millis(
                *now,
            ) && final(self).log_entries@.last().direction == Direction::Sent && final(self).log_entries@.last().data@ == sent@,
            accepted is Some && !old(self).logging_enabled ==> final(self).log_entries == old(self).log_entries,
            accepted is Some ==> final(self).receive_buffer@ == spec_append(
                old(self).receive_buffer@,
                encode_utf8(spec_tx_hex_marker(sent@)),
            ) && final(self).receive_buffer_display@ == spec_render(
                final(self).receive_buffer@,
                old(self).view_mode,
                old(self).strip_ansi,
            ) && final(self).send_buffer@ == Seq::<char>::empty(),
            accepted is None ==> *final(self) == (ComAnalyzerApp {
                error_message: final(self).error_message,
                ..*old(self)
            }) && (final(self).error_message matches Some(msg) && msg@ == lit_msg_send_failed()),
    {
        match accepted {
            Some(n) => {
                self.bytes_sent = self.bytes_sent.saturating_add(n);
                if self.logging_enabled {
                    let e = create_log_entry(Direction::Sent, sent, now);
                    self.log_entries.push(e);
                    assert(self.log_entries@.drop_last() =~= old(self).log_entries@);
                }
                proof {
                    reveal_strlit("TX [hex]: ");
                    reveal_strlit("\n");
                }
                let mut m = String::from_str("TX [hex]: ");
                let toks = format_hex_tokens(sent);
                m.append(toks.as_str());
                m.append("\n");
                assert(m@ =~= spec_tx_hex_marker(sent@));
                self.push_marker(&m);
                self.send_buffer = String::new();
            },
            None => {
                proof {
                    reveal_strlit("Send failed");
                }
                self.error_message = Some(String::from_str("Send failed"));
            },
        }
    }
}

/// The text `Empty input`.
pub open spec fn lit_msg_empty_input() -> Seq<char> {
    seq!['E', 'm', 'p', 't', 'y', ' ', 'i', 'n', 'p', 'u', 't']
}

/// The text `Invalid hex byte: '`.
pub open spec fn lit_msg_invalid_hex() -> Seq<char> {
    seq![
        'I', 'n', 'v', 'a', 'l', 'i', 'd', ' ', 'h', 'e', 'x', ' ', 'b', 'y', 't', 'e', ':', ' ',
        '\'',
    ]
}

} // verus!
