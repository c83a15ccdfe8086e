//! The RFCOMM connector: its state (socket handle and connection flag) and the decisions
//! taken between the Winsock calls that the caller makes.
use vstd::prelude::*;
use crate::text::{int_repr, message_with_code};

verus! {

/// The value of Winsock's `INVALID_SOCKET` (`SOCKET(-1 as usize)`).
pub const INVALID_SOCKET: usize = usize::MAX;

/// The value Winsock calls return on failure (`SOCKET_ERROR`).
pub const SOCKET_ERROR: i32 = -1;

/// The Bluetooth address family (`AF_BTH`).
pub const AF_BTH: u16 = 32;

/// The Winsock version asked for at start-up: major 2, minor 2.
pub fn wsa_version() -> (v: u16)
    ensures
        v == 0x0202,
{
    let major: u16 = 2;
    let minor: u16 = 2;
    let v: u16 = major << 8 | minor;
    assert(v == 0x0202) by (bit_vector)
        requires
            major == 2,
            minor == 2,
            v == major << 8 | minor,
    ;
    v
}

/// The outcome of `WSAStartup`: it failed when it returned non-zero, and the error then
/// reads `WSAStartup failed: <last error>`.
pub fn startup_result(code: i32, last_error: i32) -> (r: Result<(), String>)
    ensures
        code != 0 ==> (r matches Err(m) && m@ == "WSAStartup failed: "@ + int_repr(last_error as int)),
        code == 0 ==> r is Ok,
{
    if code != 0 {
        Err(message_with_code("WSAStartup failed: ", last_error as i64))
    } else {
        Ok(())
    }
}

/// The address a connection is made to (the fields of `SOCKADDR_BTH`): the Bluetooth
/// family, the device's address value, no service class and port 0.
pub struct BthSocketAddress {
    pub address_family: u16,
    pub bt_addr: u64,
    pub service_class_id: u128,
    pub port: u32,
}

impl BthSocketAddress {
    /// The socket address of the device with address value `bt_addr`; every other field
    /// keeps its default of zero.
    pub fn for_device(bt_addr: u64) -> (a: BthSocketAddress)
        ensures
            a.address_family == AF_BTH,
            a.bt_addr == bt_addr,
            a.service_class_id == 0,
            a.port == 0,
    {
        BthSocketAddress { address_family: AF_BTH, bt_addr, service_class_id: 0, port: 0 }
    }
}

/// A socket option that socket set-up turns on.
#[derive(Debug, Clone, Copy, PartialEq, Eq, Structural)]
pub enum SocketOption {
    /// `SO_BTH_AUTHENTICATE` at level `SOL_RFCOMM`.
    Authenticate,
    /// `SO_BTH_ENCRYPT` at level `SOL_RFCOMM`.
    Encrypt,
}

impl SocketOption {
    pub open spec fn spec_name(self) -> i32 {
        match self {
            SocketOption::Authenticate => -2147483647i32,
            SocketOption::Encrypt => 2i32,
        }
    }

    /// The option level: `SOL_RFCOMM`.
    pub fn level(&self) -> (l: i32)
        ensures
            l == 3,
    {
        3
    }

    /// The option name as Winsock takes it: `SO_BTH_AUTHENTICATE` (0x8000_0001 read as
    /// an `i32`) or `SO_BTH_ENCRYPT` (2).
    pub fn name(&self) -> (n: i32)
        ensures
            n == self.spec_name(),
    {
        match self {
            SocketOption::Authenticate => -2147483647i32,
            SocketOption::Encrypt => 2i32,
        }
    }
}

/// What happened at a step of socket set-up.
pub enum SetupEvent {
    /// `socket(AF_BTH, SOCK_STREAM, BTHPROTO_RFCOMM)` returned this handle.
    Created { socket: usize },
    /// `setsockopt` of `SO_BTH_AUTHENTICATE` returned this.
    Authenticated { result: i32 },
    /// `setsockopt` of `SO_BTH_ENCRYPT` returned this.
    Encrypted { result: i32 },
}

/// What socket set-up does next.
pub enum SetupAction {
    /// Turn `option` on for the new socket, with the one-byte value `value`.
    SetOption { option: SocketOption, value: u8 },
    /// Set-up is over, with this outcome.
    Finish(Result<(), String>),
}

/// The set-up decision after each step: a socket that could not be created, or an option
/// that could not be set, ends set-up with its message; otherwise authentication is turned
/// on, then encryption, and set-up succeeds.
pub fn socket_setup_step(event: SetupEvent, last_error: i32) -> (a: SetupAction)
    ensures
        match event {
            SetupEvent::Created { socket } => if socket == INVALID_SOCKET {
                a matches SetupAction::Finish(Err(m))
                    && m@ == "Create socket failed: "@ + int_repr(last_error as int)
            } else {
                a == (SetupAction::SetOption { option: SocketOption::Authenticate, value: 1 })
            },
            SetupEvent::Authenticated { result } => if result != 0 {
                a matches SetupAction::Finish(Err(m))
                    && m@ == "Couldn't set SO_BTH_AUTHENTICATE: "@ + int_repr(last_error as int)
            } else {
                a == (SetupAction::SetOption { option: SocketOption::Encrypt, value: 1 })
            },
            SetupEvent::Encrypted { result } => if result != 0 {
                a matches SetupAction::Finish(Err(m))
                    && m@ == "Couldn't set SO_BTH_ENCRYPT: "@ + int_repr(last_error as int)
            } else {
                a matches SetupAction::Finish(Ok(()))
            },
        },
{
    match event {
        SetupEvent::Created { socket } => {
            if socket == INVALID_SOCKET {
                SetupAction::Finish(Err(message_with_code("Create socket failed: ", last_error as i64)))
            } else {
                SetupAction::SetOption { option: SocketOption::Authenticate, value: 1 }
            }
        },
        SetupEvent::Authenticated { result } => {
            if result != 0 {
                SetupAction::Finish(
                    Err(message_with_code("Couldn't set SO_BTH_AUTHENTICATE: ", last_error as i64)),
                )
            } else {
                SetupAction::SetOption { option: SocketOption::Encrypt, value: 1 }
            }
        },
        SetupEvent::Encrypted { result } => {
            if result != 0 {
                SetupAction::Finish(
                    Err(message_with_code("Couldn't set SO_BTH_ENCRYPT: ", last_error as i64)),
                )
            } else {
                SetupAction::Finish(Ok(()))
            }
        },
    }
}

/// The outcome of `send`: `SOCKET_ERROR` is a failure reading `Couldn't send (<last error>)`;
/// any other count is the number of bytes sent.
pub fn send_result(bytes_sent: i32, last_error: i32) -> (r: Result<i32, String>)
    ensures
        bytes_sent == SOCKET_ERROR ==> (r matches Err(m)
            && m@ == "Couldn't send ("@ + int_repr(last_error as int) + ")"@),
        bytes_sent != SOCKET_ERROR ==> r == Ok::<i32, String>(bytes_sent),
{
    transfer_result("Couldn't send (", bytes_sent, last_error)
}

/// The outcome of `recv`: `SOCKET_ERROR` is a failure reading `Couldn't recv (<last error>)`;
/// any other count is the number of bytes received.
pub fn recv_result(bytes_received: i32, last_error: i32) -> (r: Result<i32, String>)
    ensures
        bytes_received == SOCKET_ERROR ==> (r matches Err(m)
            && m@ == "Couldn't recv ("@ + int_repr(last_error as int) + ")"@),
        bytes_received != SOCKET_ERROR ==> r == Ok::<i32, String>(bytes_received),
{
    transfer_result("Couldn't recv (", bytes_received, last_error)
}

fn transfer_result(prefix: &str, count: i32, last_error: i32) -> (r: Result<i32, String>)
    ensures
        count == SOCKET_ERROR ==> (r matches Err(m)
            && m@ == prefix@ + int_repr(last_error as int) + ")"@),
        count != SOCKET_ERROR ==> r == Ok::<i32, String>(count),
{
    if count == SOCKET_ERROR {
        let mut m = message_with_code(prefix, last_error as i64);
        m.append(")");
        Err(m)
    } else {
        Ok(count)
    }
}

/// The abstract state of a connector.
pub struct ConnectorView {
    pub socket: usize,
    pub connected: bool,
}

/// The state a connection attempt leaves: connected when `connect` returned 0, unchanged
/// otherwise.
pub open spec fn after_connect(v: ConnectorView, result: i32) -> ConnectorView {
    if result == 0 {
        ConnectorView { socket: v.socket, connected: true }
    } else {
        v
    }
}

/// The socket that disconnecting (or dropping) closes: the held one, unless it is invalid.
pub open spec fn socket_to_close(v: ConnectorView) -> Option<usize> {
    if v.socket != INVALID_SOCKET {
        Some(v.socket)
    } else {
        None
    }
}

/// The state disconnecting leaves: with a valid socket, not connected and holding no socket;
/// otherwise unchanged.
pub open spec fn after_disconnect(v: ConnectorView) -> ConnectorView {
    if v.socket != INVALID_SOCKET {
        ConnectorView { socket: INVALID_SOCKET, connected: false }
    } else {
        v
    }
}

/// An RFCOMM connector: the socket handle it holds and whether it is connected.
pub struct BluetoothConnector {
    socket: usize,
    connected: bool,
}

impl View for BluetoothConnector {
    type V = ConnectorView;

    closed spec fn view(&self) -> ConnectorView {
        ConnectorView { socket: self.socket, connected: self.connected }
    }
}

impl BluetoothConnector {
    /// A connector holding socket handle 0, not connected. (Winsock start-up, which comes
    /// before it, is the caller's call; its outcome is not kept.)
    pub fn new() -> (c: BluetoothConnector)
        ensures
            c@ == (ConnectorView { socket: 0, connected: false }),
    {
        BluetoothConnector { socket: 0, connected: false }
    }

    /// The socket handle held.
    pub fn socket(&self) -> (s: usize)
        ensures
            s == self@.socket,
    {
        self.socket
    }

    /// Whether the connector is connected.
    pub fn is_connected(&self) -> (b: bool)
        ensures
            b == self@.connected,
    {
        self.connected
    }

    /// Whether a connection must first set up a socket: the held handle is invalid.
    pub fn needs_socket_init(&self) -> (b: bool)
        ensures
            b == (self@.socket == INVALID_SOCKET),
    {
        self.socket == INVALID_SOCKET
    }

    /// Records the outcome of `connect` on the held socket: 0 makes the connector connected;
    /// anything else leaves it as it was and fails with `Couldn't connect: <last error>`.
    pub fn finish_connect(&mut self, result: i32, last_error: i32) -> (r: Result<(), String>)
        ensures
            final(self)@ == after_connect(old(self)@, result),
            result == 0 ==> r is Ok,
            result != 0 ==> (r matches Err(m) && m@ == "Couldn't connect: "@ + int_repr(
                last_error as int,
            )),
    {
        if result != 0 {
            return Err(message_with_code("Couldn't connect: ", last_error as i64));
        }
        self.connected = true;
        Ok(())
    }

    /// Disconnects: with a valid socket, marks the connector not connected, forgets the
    /// socket and returns it for the caller to shut down and close; otherwise does nothing.
    pub fn disconnect(&mut self) -> (closing: Option<usize>)
        ensures
            closing == socket_to_close(old(self)@),
            final(self)@ == after_disconnect(old(self)@),
    {
        if self.socket != INVALID_SOCKET {
            let s = self.socket;
            self.connected = false;
            self.socket = INVALID_SOCKET;
            Some(s)
        } else {
            None
        }
    }

    /// The socket that dropping the connector closes: the held one, unless it is invalid.
    pub fn socket_to_release(&self) -> (s: Option<usize>)
        ensures
            s == socket_to_close(self@),
    {
        if self.socket != INVALID_SOCKET {
            Some(self.socket)
        } else {
            None
        }
    }
}

// ---------------------------------------------------------------------------
// Laws of the connector
// ---------------------------------------------------------------------------

/// A fresh connector holds a socket handle that is not invalid, so a connection made with it
/// does not set up a socket first.
pub proof fn lemma_new_connector_skips_setup()
    ensures
        (ConnectorView { socket: 0, connected: false }).socket != INVALID_SOCKET,
{
}

/// A connection whose `connect` returned 0 leaves the connector connected on the same socket;
/// one that failed leaves it exactly as it was.
pub proof fn lemma_connect_outcome(v: ConnectorView, result: i32)
    ensures
        result == 0 ==> after_connect(v, result).connected && after_connect(v, result).socket
            == v.socket,
        result != 0 ==> after_connect(v, result) == v,
{
}

/// Disconnecting twice: the second disconnect closes nothing and changes nothing.
pub proof fn lemma_disconnect_idempotent(v: ConnectorView)
    ensures
        socket_to_close(after_disconnect(v)) is None,
        after_disconnect(after_disconnect(v)) == after_disconnect(v),
{
}

/// A socket is closed at most once: after a disconnect, dropping the connector closes
/// nothing more.
pub proof fn lemma_no_close_after_disconnect(v: ConnectorView)
    ensures
        socket_to_close(after_disconnect(v)) is None,
{
}

/// After a disconnect the connector holds no socket, so the next connection sets one up.
pub proof fn lemma_disconnect_forgets_socket(v: ConnectorView)
    ensures
        after_disconnect(v).socket == INVALID_SOCKET,
{
}

/// A connector that held a socket, connected or not, is not connected after a disconnect;
/// the socket it closes is the one it held.
pub proof fn lemma_disconnect_ends_connection(v: ConnectorView, result: i32)
    requires
        v.socket != INVALID_SOCKET,
    ensures
        !after_disconnect(after_connect(v, result)).connected,
        socket_to_close(after_connect(v, result)) == Some(v.socket),
{
}

} // verus!
