//! Port-facing responses and connection-state decisions.  The serial device
//! itself lives outside; here are the rules: what a response says, when an
//! open or close is refused, and how one read outcome is classified.

use vstd::prelude::*;
use crate::fixedpoint::dec_digits;

verus! {

/// The decimal digit `d` (0 to 9) as a character.
pub open spec fn digit_char(d: nat) -> char {
    if d == 0 {
        '0'
    } else if d == 1 {
        '1'
    } else if d == 2 {
        '2'
    } else if d == 3 {
        '3'
    } else if d == 4 {
        '4'
    } else if d == 5 {
        '5'
    } else if d == 6 {
        '6'
    } else if d == 7 {
        '7'
    } else if d == 8 {
        '8'
    } else {
        '9'
    }
}

/// The canonical decimal text of `n`, as characters.
pub open spec fn dec_chars(n: nat) -> Seq<char>
    decreases n,
{
    if n < 10 {
        seq![digit_char(n)]
    } else {
        dec_chars(n / 10) + seq![digit_char(n % 10)]
    }
}

/// Append one digit character.
fn append_digit(s: &mut String, d: u8)
    requires
        d <= 9,
    ensures
        final(s)@ == old(s)@ + seq![digit_char(d as nat)],
{
    if d == 0 {
        proof {
            reveal_strlit("0");
        }
        <String as vstd::string::StringExecFns>::append(s, "0");
    } else if d == 1 {
        proof {
            reveal_strlit("1");
        }
        <String as vstd::string::StringExecFns>::append(s, "1");
    } else if d == 2 {
        proof {
            reveal_strlit("2");
        }
        <String as vstd::string::StringExecFns>::append(s, "2");
    } else if d == 3 {
        proof {
            reveal_strlit("3");
        }
        <String as vstd::string::StringExecFns>::append(s, "3");
    } else if d == 4 {
        proof {
            reveal_strlit("4");
        }
        <String as vstd::string::StringExecFns>::append(s, "4");
    } else if d == 5 {
        proof {
            reveal_strlit("5");
        }
        <String as vstd::string::StringExecFns>::append(s, "5");
    } else if d == 6 {
        proof {
            reveal_strlit("6");
        }
        <String as vstd::string::StringExecFns>::append(s, "6");
    } else if d == 7 {
        proof {
            reveal_strlit("7");
        }
        <String as vstd::string::StringExecFns>::append(s, "7");
    } else if d == 8 {
        proof {
            reveal_strlit("8");
        }
        <String as vstd::string::StringExecFns>::append(s, "8");
    } else {
        proof {
            reveal_strlit("9");
        }
        <String as vstd::string::StringExecFns>::append(s, "9");
    }
    proof {
        assert(s@ =~= old(s)@ + seq![digit_char(d as nat)]);
    }
}

/// Append the decimal text of `n`.
#[verifier::loop_isolation(false)]
pub fn append_u64(s: &mut String, n: u64)
    ensures
        final(s)@ == old(s)@ + dec_chars(n as nat),
{
    // Digit values are gathered least significant first, then appended in
    // reverse.
    let mut low: Vec<u8> = Vec::new();
    let mut cur: u64 = n;
    if n == 0 {
        append_digit(s, 0);
        proof {
            assert(old(s)@ + seq![digit_char(0)] =~= old(s)@ + dec_chars(0));
        }
        return ;
    }
    proof {
        assert(low@.reverse() =~= Seq::<u8>::empty());
    }
    while cur > 0
        invariant
            forall|j: int| 0 <= j < low@.len() ==> #[trigger] low@[j] <= 9,
            cur > 0 ==> dec_chars(n as nat) == dec_chars(cur as nat) + low@.reverse().map_values(
                |d: u8| digit_char(d as nat),
            ),
            cur == 0 ==> dec_chars(n as nat) == low@.reverse().map_values(
                |d: u8| digit_char(d as nat),
            ),
        decreases cur,
    {
        let d: u8 = (cur % 10) as u8;
        let next = cur / 10;
        proof {
            let f = |d: u8| digit_char(d as nat);
            let lr = low@.reverse().map_values(f);
            let lr2 = low@.push(d).reverse().map_values(f);
            assert(low@.push(d).reverse() =~= seq![d] + low@.reverse());
            assert(lr2 =~= seq![digit_char(d as nat)] + lr);
            if cur < 10 {
                assert(dec_chars(cur as nat) =~= seq![digit_char(cur as nat)]);
                assert(dec_chars(cur as nat) + lr =~= lr2);
            } else {
                assert(dec_chars(cur as nat) =~= dec_chars(cur as nat / 10) + seq![
                    digit_char((cur % 10) as nat),
                ]);
                assert((dec_chars(cur as nat / 10) + seq![digit_char((cur % 10) as nat)]) + lr
                    =~= dec_chars(cur as nat / 10) + lr2);
            }
        }
        low.push(d);
        cur = next;
    }
    let k = low.len();
    let mut i: usize = 0;
    let ghost base = s@;
    proof {
        assert(s@ =~= base + dec_chars(n as nat).take(0));
    }
    while i < k
        invariant
            0 <= i <= k,
            k == low@.len(),
            dec_chars(n as nat).len() == k,
            forall|j: int|
                0 <= j < k ==> dec_chars(n as nat)[j] == digit_char(
                    low@.reverse().index(j) as nat,
                ),
            s@ == base + dec_chars(n as nat).take(i as int),
        decreases k - i,
    {
        let d = low[k - 1 - i];
        append_digit(s, d);
        proof {
            assert(low@.reverse().index(i as int) == low@[k - 1 - i]);
            assert(dec_chars(n as nat).take(i + 1) =~= dec_chars(n as nat).take(i as int) + seq![
                digit_char(low@[k - 1 - i] as nat),
            ]);
            assert(s@ =~= base + dec_chars(n as nat).take(i + 1));
        }
        i = i + 1;
    }
    proof {
        assert(dec_chars(n as nat).take(k as int) =~= dec_chars(n as nat));
    }
}

/// What a port operation reports back: an outcome flag, a message, and for
/// an enumeration the port names.
#[derive(Debug)]
pub struct SerialPortResponse {
    success: bool,
    message: String,
    ports: Vec<String>,
}

impl SerialPortResponse {
    /// The outcome flag.
    pub closed spec fn spec_success(&self) -> bool {
        self.success
    }

    /// The message text.
    pub closed spec fn spec_message(&self) -> Seq<char> {
        self.message@
    }

    /// The listed port names.
    pub closed spec fn spec_ports(&self) -> Seq<Seq<char>> {
        self.ports@.map_values(|p: String| p@)
    }

    /// Assemble a response.
    pub fn new(success: bool, message: String, ports: Vec<String>) -> (r: SerialPortResponse)
        ensures
            r.spec_success() == success,
            r.spec_message() == message@,
            r.spec_ports() == ports@.map_values(|p: String| p@),
    {
        SerialPortResponse { success, message, ports }
    }

    /// The outcome flag.
    pub fn success(&self) -> (b: bool)
        ensures
            b == self.spec_success(),
    {
        self.success
    }

    /// The message text.
    pub fn message(&self) -> (m: &String)
        ensures
            m@ == self.spec_message(),
    {
        &self.message
    }

    /// The listed port names.
    pub fn ports(&self) -> (p: &Vec<String>)
        ensures
            p@.map_values(|q: String| q@) == self.spec_ports(),
    {
        &self.ports
    }
}

/// The successful answer to a port enumeration: the names, and a fixed
/// confirmation message.
pub fn list_ports_response(port_names: Vec<String>) -> (r: SerialPortResponse)
    ensures
        r.spec_success() == true,
        r.spec_message() == "Ports listed successfully"@,
        r.spec_ports() == port_names@.map_values(|p: String| p@),
{
    SerialPortResponse {
        success: true,
        message: <String as vstd::string::StringExecFns>::from_str("Ports listed successfully"),
        ports: port_names,
    }
}

/// The successful answer to opening a port by name.
pub fn open_port_response(port_name: &str) -> (r: SerialPortResponse)
    ensures
        r.spec_success() == true,
        r.spec_message() == "Port "@ + port_name@ + " opened successfully"@,
        r.spec_ports() == Seq::<Seq<char>>::empty(),
{
    let m = <String as vstd::string::StringExecFns>::from_str("Port ");
    let m = <String as vstd::string::StringExecFns>::concat(m, port_name);
    let m = <String as vstd::string::StringExecFns>::concat(m, " opened successfully");
    let r = SerialPortResponse { success: true, message: m, ports: Vec::new() };
    proof {
        assert(r.spec_ports() =~= Seq::<Seq<char>>::empty());
    }
    r
}

/// The successful answer to closing the port.
pub fn close_port_response() -> (r: SerialPortResponse)
    ensures
        r.spec_success() == true,
        r.spec_message() == "Port closed successfully"@,
        r.spec_ports() == Seq::<Seq<char>>::empty(),
{
    let r = SerialPortResponse {
        success: true,
        message: <String as vstd::string::StringExecFns>::from_str("Port closed successfully"),
        ports: Vec::new(),
    };
    proof {
        assert(r.spec_ports() =~= Seq::<Seq<char>>::empty());
    }
    r
}

/// The confirmation message for a freshly opened connection.
pub fn connected_message(port_name: &str, baud_rate: u32) -> (m: String)
    ensures
        m@ == "Connected to "@ + port_name@ + " at "@ + dec_chars(baud_rate as nat) + " baud"@,
{
    let m0 = <String as vstd::string::StringExecFns>::from_str("Connected to ");
    let m1 = <String as vstd::string::StringExecFns>::concat(m0, port_name);
    let mut m2 = <String as vstd::string::StringExecFns>::concat(m1, " at ");
    append_u64(&mut m2, baud_rate as u64);
    let m3 = <String as vstd::string::StringExecFns>::concat(m2, " baud");
    proof {
        assert(m3@ =~= "Connected to "@ + port_name@ + " at "@ + dec_chars(baud_rate as nat)
            + " baud"@);
    }
    m3
}

/// The text that a byte chunk reads as, after lossy UTF-8 decoding.  It is
/// a function of the bytes alone.
pub uninterp spec fn lossy_text_of(b: Seq<u8>) -> Seq<char>;

/// Relies on std's `String::from_utf8_lossy`: the decoded text depends on
/// the bytes alone (invalid sequences become replacement characters), and
/// no bytes decode to no text.
#[verifier::external_body]
fn utf8_lossy(b: &[u8]) -> (r: String)
    ensures
        r@ == lossy_text_of(b@),
        b@.len() == 0 ==> r@.len() == 0,
{
    String::from_utf8_lossy(b).into_owned()
}

/// What one monitoring read of the port produced, as the caller saw it.
pub enum PortReadOutcome {
    /// The read returned this many-or-few bytes (possibly none).
    BytesRead(Vec<u8>),
    /// The read timed out: no data available, not an error.
    TimedOut,
    /// The read failed for another reason.
    Failed,
    /// The port handle could not be duplicated for reading.
    CloneFailed,
}

/// Why monitoring produced no response.
#[derive(Clone, Copy, Debug, PartialEq, Eq, Structural)]
pub enum MonitorError {
    /// No port is open.
    NoPortOpen,
    /// The read failed.
    ReadFailed,
    /// The port handle could not be duplicated.
    CloneFailed,
}

impl MonitorError {
    /// The fixed part of the error text; the caller appends the OS detail.
    pub fn message(&self) -> (r: String)
        ensures
            self is NoPortOpen ==> r@ == "No port is currently open"@,
            self is ReadFailed ==> r@ == "Failed to read from port: "@,
            self is CloneFailed ==> r@ == "Failed to clone port: "@,
    {
        match self {
            MonitorError::NoPortOpen => <String as vstd::string::StringExecFns>::from_str(
                "No port is currently open",
            ),
            MonitorError::ReadFailed => <String as vstd::string::StringExecFns>::from_str(
                "Failed to read from port: ",
            ),
            MonitorError::CloneFailed => <String as vstd::string::StringExecFns>::from_str(
                "Failed to clone port: ",
            ),
        }
    }
}

/// Classify one monitoring cycle.  Without an open port nothing is read and
/// the caller gets the error; data read becomes the response text; an empty
/// read and a timeout both answer "no data available"; the two failure
/// shapes are passed through as errors.
pub fn monitor_response(port_open: bool, outcome: PortReadOutcome) -> (r: Result<
    SerialPortResponse,
    MonitorError,
>)
    ensures
        !port_open <==> r == Result::<SerialPortResponse, MonitorError>::Err(
            MonitorError::NoPortOpen,
        ),
        port_open && outcome is BytesRead && outcome->BytesRead_0@.len() > 0 ==> r is Ok
            && r->Ok_0.spec_success() && r->Ok_0.spec_message() == lossy_text_of(
            outcome->BytesRead_0@,
        ) && r->Ok_0.spec_ports() == Seq::<Seq<char>>::empty(),
        port_open && outcome is BytesRead && outcome->BytesRead_0@.len() == 0 ==> r is Ok
            && r->Ok_0.spec_success() && r->Ok_0.spec_message() == "No data available"@
            && r->Ok_0.spec_ports() == Seq::<Seq<char>>::empty(),
        port_open && outcome is TimedOut ==> r is Ok && r->Ok_0.spec_success()
            && r->Ok_0.spec_message() == "No data available"@ && r->Ok_0.spec_ports() == Seq::<
            Seq<char>,
        >::empty(),
        port_open && outcome is Failed ==> r == Result::<SerialPortResponse, MonitorError>::Err(
            MonitorError::ReadFailed,
        ),
        port_open && outcome is CloneFailed ==> r == Result::<
            SerialPortResponse,
            MonitorError,
        >::Err(MonitorError::CloneFailed),
{
    if !port_open {
        return Err(MonitorError::NoPortOpen);
    }
    match outcome {
        PortReadOutcome::BytesRead(bytes) => {
            if bytes.len() > 0 {
                let text = utf8_lossy(bytes.as_slice());
                let r = SerialPortResponse { success: true, message: text, ports: Vec::new() };
                proof {
                    assert(r.spec_ports() =~= Seq::<Seq<char>>::empty());
                }
                Ok(r)
            } else {
                let r = SerialPortResponse {
                    success: true,
                    message: <String as vstd::string::StringExecFns>::from_str(
                        "No data available",
                    ),
                    ports: Vec::new(),
                };
                proof {
                    assert(r.spec_ports() =~= Seq::<Seq<char>>::empty());
                }
                Ok(r)
            }
        },
        PortReadOutcome::TimedOut => {
            let r = SerialPortResponse {
                success: true,
                message: <String as vstd::string::StringExecFns>::from_str("No data available"),
                ports: Vec::new(),
            };
            proof {
                assert(r.spec_ports() =~= Seq::<Seq<char>>::empty());
            }
            Ok(r)
        },
        PortReadOutcome::Failed => Err(MonitorError::ReadFailed),
        PortReadOutcome::CloneFailed => Err(MonitorError::CloneFailed),
    }
}

/// Why a connection operation was refused.
#[derive(Clone, Copy, Debug, PartialEq, Eq, Structural)]
pub enum ConnectionError {
    /// A connection is already open.
    AlreadyOpen,
    /// There is no open connection.
    NotOpen,
}

impl ConnectionError {
    /// The error text each refusal carries.
    pub fn message(&self) -> (r: String)
        ensures
            self is AlreadyOpen ==> r@ == "A serial connection is already open"@,
            self is NotOpen ==> r@ == "No active serial connection to close"@,
    {
        match self {
            ConnectionError::AlreadyOpen => <String as vstd::string::StringExecFns>::from_str(
                "A serial connection is already open",
            ),
            ConnectionError::NotOpen => <String as vstd::string::StringExecFns>::from_str(
                "No active serial connection to close",
            ),
        }
    }
}

/// The state a serial connection is in: whether a port is held open, and
/// whether a running worker was asked to stop.  The handle itself lives
/// with the caller; every decision about it is made here.  At most one
/// session holds the port at a time: opening over an open connection is an
/// error, never a silent merge.
pub struct ConnectionState {
    open: bool,
    stop_flag: bool,
}

impl ConnectionState {
    /// Whether a port is held open.
    pub closed spec fn is_open(&self) -> bool {
        self.open
    }

    /// Whether the worker was asked to stop.
    pub closed spec fn stop_requested(&self) -> bool {
        self.stop_flag
    }

    /// A fresh connection: no port, no stop request.
    pub fn new() -> (c: ConnectionState)
        ensures
            !c.is_open(),
            !c.stop_requested(),
    {
        ConnectionState { open: false, stop_flag: false }
    }

    /// Whether a port is held open.
    pub fn open_now(&self) -> (b: bool)
        ensures
            b == self.is_open(),
    {
        self.open
    }

    /// Whether the worker was asked to stop.
    pub fn stop_now(&self) -> (b: bool)
        ensures
            b == self.stop_requested(),
    {
        self.stop_flag
    }

    /// The opening decision: a previous stop request is cleared first (so a
    /// later session is not stillborn), then a connection that is already
    /// open refuses the attempt and nothing else changes; otherwise the
    /// connection becomes open.  The caller opens the device only on `Ok`.
    pub fn open_serial_update(&mut self) -> (r: Result<(), ConnectionError>)
        ensures
            !final(self).stop_requested(),
            old(self).is_open() ==> r == Result::<(), ConnectionError>::Err(
                ConnectionError::AlreadyOpen,
            ) && final(self).is_open(),
            !old(self).is_open() ==> r is Ok && final(self).is_open(),
    {
        self.stop_flag = false;
        if self.open {
            Err(ConnectionError::AlreadyOpen)
        } else {
            self.open = true;
            Ok(())
        }
    }

    /// The closing decision: with no open connection the close is refused;
    /// otherwise the stop flag is raised for the worker and the port is
    /// marked released.  The caller drops the device handle only on `Ok`.
    pub fn close_serial_update(&mut self) -> (r: Result<(), ConnectionError>)
        ensures
            !old(self).is_open() ==> r == Result::<(), ConnectionError>::Err(
                ConnectionError::NotOpen,
            ) && final(self).is_open() == old(self).is_open() && final(self).stop_requested()
                == old(self).stop_requested(),
            old(self).is_open() ==> r is Ok && !final(self).is_open()
                && final(self).stop_requested(),
    {
        if !self.open {
            Err(ConnectionError::NotOpen)
        } else {
            self.stop_flag = true;
            self.open = false;
            Ok(())
        }
    }

    /// Ask the worker to stop without touching the port state; setting the
    /// flag twice is the same as setting it once, and the call never waits.
    pub fn request_stop(&mut self)
        ensures
            final(self).stop_requested(),
            final(self).is_open() == old(self).is_open(),
    {
        self.stop_flag = true;
    }

    /// Whether a write may proceed: only over an open connection.
    pub fn write_allowed(&self) -> (b: bool)
        ensures
            b == self.is_open(),
    {
        self.open
    }
}

} // verus!
