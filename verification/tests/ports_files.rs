use telemetry_stream::files::ensure_txt_extension;
use telemetry_stream::ports::{
    close_port_response, connected_message, list_ports_response, monitor_response,
    open_port_response, ConnectionError, ConnectionState, MonitorError, PortReadOutcome,
    SerialPortResponse,
};

// Every created file carries the `.txt` extension exactly once.
#[test]
fn txt_extension_rule() {
    assert_eq!(ensure_txt_extension("flight1").as_str(), "flight1.txt");
    assert_eq!(ensure_txt_extension("flight1.txt").as_str(), "flight1.txt");
    assert_eq!(ensure_txt_extension("").as_str(), ".txt");
    assert_eq!(ensure_txt_extension("a.txt.bak").as_str(), "a.txt.bak.txt");
}

// The fixed response shapes.
#[test]
fn response_builders() {
    let r = list_ports_response(vec![String::from("COM3"), String::from("COM4")]);
    assert!(r.success());
    assert_eq!(r.message().as_str(), "Ports listed successfully");
    assert_eq!(r.ports().len(), 2);
    assert_eq!(r.ports()[0].as_str(), "COM3");

    let o = open_port_response("COM3");
    assert!(o.success());
    assert_eq!(o.message().as_str(), "Port COM3 opened successfully");
    assert_eq!(o.ports().len(), 0);

    let c = close_port_response();
    assert!(c.success());
    assert_eq!(c.message().as_str(), "Port closed successfully");

    let custom = SerialPortResponse::new(false, String::from("oops"), Vec::new());
    assert!(!custom.success());
    assert_eq!(custom.message().as_str(), "oops");
}

// The verified number formatting inside the connection message.
#[test]
fn connected_message_text() {
    assert_eq!(
        connected_message("/dev/ttyUSB0", 9600).as_str(),
        "Connected to /dev/ttyUSB0 at 9600 baud"
    );
    assert_eq!(connected_message("p", 0).as_str(), "Connected to p at 0 baud");
    assert_eq!(
        connected_message("p", 4294967295).as_str(),
        "Connected to p at 4294967295 baud"
    );
}

// One monitoring cycle, classified: data becomes text, silence is benign,
// failures carry their own error.
#[test]
fn monitor_classification() {
    let r = monitor_response(true, PortReadOutcome::BytesRead(b"hello".to_vec())).unwrap();
    assert!(r.success());
    assert_eq!(r.message().as_str(), "hello");

    let quiet = monitor_response(true, PortReadOutcome::BytesRead(Vec::new())).unwrap();
    assert_eq!(quiet.message().as_str(), "No data available");

    let t = monitor_response(true, PortReadOutcome::TimedOut).unwrap();
    assert_eq!(t.message().as_str(), "No data available");

    let e = monitor_response(false, PortReadOutcome::TimedOut).unwrap_err();
    assert_eq!(e, MonitorError::NoPortOpen);
    assert_eq!(e.message().as_str(), "No port is currently open");

    let f = monitor_response(true, PortReadOutcome::Failed).unwrap_err();
    assert_eq!(f, MonitorError::ReadFailed);
    assert_eq!(f.message().as_str(), "Failed to read from port: ");

    let g = monitor_response(true, PortReadOutcome::CloneFailed).unwrap_err();
    assert_eq!(g, MonitorError::CloneFailed);
}

// The connection state machine: opening twice is an error, closing raises
// the stop flag, closing nothing is an error, stopping is idempotent.
#[test]
fn connection_lifecycle() {
    let mut c = ConnectionState::new();
    assert!(!c.open_now());
    assert!(!c.stop_now());

    assert!(c.open_serial_update().is_ok());
    assert!(c.open_now());

    let again = c.open_serial_update().unwrap_err();
    assert_eq!(again, ConnectionError::AlreadyOpen);
    assert_eq!(again.message().as_str(), "A serial connection is already open");
    assert!(c.open_now());

    assert!(c.close_serial_update().is_ok());
    assert!(!c.open_now());
    assert!(c.stop_now());

    let none = c.close_serial_update().unwrap_err();
    assert_eq!(none, ConnectionError::NotOpen);
    assert_eq!(none.message().as_str(), "No active serial connection to close");

    // Reopening clears the stop request first.
    assert!(c.open_serial_update().is_ok());
    assert!(!c.stop_now());
    assert!(c.write_allowed());

    c.request_stop();
    c.request_stop();
    assert!(c.stop_now());
    assert!(c.open_now());
}
