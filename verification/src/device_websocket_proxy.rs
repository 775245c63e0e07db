//! The device proxy: for each device one session that bridges the device's
//! own connection to the viewers of that device.

use crate::error::{BindError, NotConnected};
use crate::realtime_data::UnifiedRealtimeMessage;
use std::collections::HashMap;
use vstd::prelude::*;

verus! {

broadcast use vstd::std_specs::hash::group_hash_axioms;

/// The viewer-facing port of device 0; device `n` gets this port plus `n`.
pub const PROXY_PORT_BASE: u16 = 2333;

/// The largest device id that still has a viewer-facing port.
pub const MAX_PROXY_DEVICE_ID: i32 = 63202;

/// A device's session.
#[derive(Debug, Clone, Copy, PartialEq, Eq)]
pub struct DeviceProxyInfo {
    pub device_id: i32,
    /// The device's UUID, as its 128 bits.
    pub device_uuid: u128,
    /// The port that the device dials into.
    pub device_port: u16,
    /// The port that viewers dial into.
    pub proxy_port: u16,
    /// Whether the device is connected: then, and only then, the session
    /// has a command channel.
    pub is_connected: bool,
    /// The number of the device's connection, while it is connected.
    pub connection: u64,
}

/// What is torn down with a session.
#[derive(Debug, Clone, Copy, PartialEq, Eq)]
pub struct Teardown {
    /// Drop the command channel and close the device's socket, with a
    /// close frame where it can still be sent.
    pub close_device: bool,
    /// Cancel the viewer-facing listener through its shutdown signal.
    pub cancel_viewer_listener: bool,
}

/// What a request for a proxy asks the caller to do.
#[derive(Debug, Clone, Copy, PartialEq, Eq)]
pub enum ProxyPlan {
    /// The device is connected: its session stays, with this viewer port.
    Existing { proxy_port: u16 },
    /// Tear down what the stale session had, then open the device-facing
    /// listener on all interfaces and the viewer-facing one on loopback.
    Open { teardown: Teardown, device_port: u16, proxy_port: u16 },
}

/// A frame that arrived on the device's connection, or the end of it.
#[derive(Debug, PartialEq, Eq)]
pub enum DeviceFrame {
    Text(String),
    Binary,
    Ping,
    Pong,
    /// The peer closed, the read failed or the stream ended.
    Closed,
}

/// What a frame from the device asks the caller to do.
#[derive(Debug, PartialEq, Eq)]
pub enum FrameAction {
    /// Hand the text to the ingest pipeline.
    Process(String),
    /// Nothing.
    Ignore,
    /// End both loops of the connection. Where the connection was the
    /// device's live one, its command channel goes with it.
    End { was_live: bool },
}

/// Where a device's session stands.
#[derive(Debug, Clone, Copy, PartialEq, Eq)]
pub enum SessionState {
    /// The device has no session.
    Idle,
    /// The listeners are open and the device has not dialled in, or has left.
    AwaitingDevice,
    /// The device is connected and takes commands.
    Connected,
}

/// The state of a device's session.
pub open spec fn state_in(sessions: Map<i32, DeviceProxyInfo>, device_id: i32) -> SessionState {
    if !sessions.contains_key(device_id) {
        SessionState::Idle
    } else if sessions[device_id].is_connected {
        SessionState::Connected
    } else {
        SessionState::AwaitingDevice
    }
}

/// The viewer-facing port of a device.
pub open spec fn proxy_port_of(device_id: i32) -> int {
    PROXY_PORT_BASE + device_id
}

/// Whether a device id has a viewer-facing port.
pub open spec fn has_proxy_port(device_id: i32) -> bool {
    0 <= device_id <= MAX_PROXY_DEVICE_ID
}

/// Whether the table holds a connected session for the device.
pub open spec fn connected_in(sessions: Map<i32, DeviceProxyInfo>, device_id: i32) -> bool {
    sessions.contains_key(device_id) && sessions[device_id].is_connected
}

/// What tearing down a device's session comes to.
pub open spec fn teardown_of(sessions: Map<i32, DeviceProxyInfo>, device_id: i32) -> Teardown {
    Teardown {
        close_device: connected_in(sessions, device_id),
        cancel_viewer_listener: sessions.contains_key(device_id),
    }
}

/// The session that a request for a proxy records.
pub open spec fn fresh_session(device_id: i32, device_uuid: u128, device_port: u16) -> DeviceProxyInfo {
    DeviceProxyInfo {
        device_id,
        device_uuid,
        device_port,
        proxy_port: proxy_port_of(device_id) as u16,
        is_connected: false,
        connection: 0,
    }
}

/// The number after `connection`; the numbers start over after the last.
pub open spec fn next_connection(connection: u64) -> u64 {
    if connection == u64::MAX {
        0
    } else {
        (connection + 1) as u64
    }
}

/// The table after the device has dialled in on the connection with the
/// given number; a device without a session stays without one.
pub open spec fn with_arrival(
    sessions: Map<i32, DeviceProxyInfo>,
    device_id: i32,
    connection: u64,
) -> Map<i32, DeviceProxyInfo> {
    if sessions.contains_key(device_id) {
        sessions.insert(
            device_id,
            DeviceProxyInfo { is_connected: true, connection, ..sessions[device_id] },
        )
    } else {
        sessions
    }
}

/// Whether the connection with the given number is the device's live one.
pub open spec fn is_live(
    sessions: Map<i32, DeviceProxyInfo>,
    device_id: i32,
    connection: u64,
) -> bool {
    connected_in(sessions, device_id) && sessions[device_id].connection == connection
}

/// The table after the connection with the given number has ended: the
/// session of a live connection waits for the device again, and the end of
/// any other connection changes nothing.
pub open spec fn with_departure(
    sessions: Map<i32, DeviceProxyInfo>,
    device_id: i32,
    connection: u64,
) -> Map<i32, DeviceProxyInfo> {
    if is_live(sessions, device_id, connection) {
        sessions.insert(device_id, DeviceProxyInfo { is_connected: false, ..sessions[device_id] })
    } else {
        sessions
    }
}

/// The viewer-facing port of a device, where it has one.
pub fn proxy_port_for(device_id: i32) -> (port: Option<u16>)
    ensures
        has_proxy_port(device_id) ==> port == Some(proxy_port_of(device_id) as u16),
        !has_proxy_port(device_id) ==> port is None,
{
    if 0 <= device_id && device_id <= MAX_PROXY_DEVICE_ID {
        Some(PROXY_PORT_BASE + (device_id as u16))
    } else {
        None
    }
}

/// The sessions by device, and the number of the next connection.
pub struct DeviceWebSocketProxyService {
    device_proxies: HashMap<i32, DeviceProxyInfo>,
    connections: u64,
}

impl DeviceWebSocketProxyService {
    /// The sessions by device.
    pub closed spec fn sessions(&self) -> Map<i32, DeviceProxyInfo> {
        self.device_proxies@
    }

    /// The number that the next connection of a device gets.
    pub closed spec fn upcoming(&self) -> u64 {
        self.connections
    }

    /// A proxy without sessions.
    pub fn new() -> (r: Self)
        ensures
            r.sessions() == Map::<i32, DeviceProxyInfo>::empty(),
            r.upcoming() == 0,
    {
        DeviceWebSocketProxyService { device_proxies: HashMap::new(), connections: 0 }
    }

    /// Answers a request for a proxy. A connected device keeps its session
    /// and its viewer port. Any other device gets a fresh session that
    /// waits for the device; what a stale session had is to be torn down,
    /// and both listeners are to be opened.
    pub fn create_device_proxy(&mut self, device_id: i32, device_uuid: u128, device_port: u16) -> (plan:
        ProxyPlan)
        requires
            has_proxy_port(device_id),
        ensures
            connected_in(old(self).sessions(), device_id) ==> {
                &&& plan == (ProxyPlan::Existing {
                    proxy_port: old(self).sessions()[device_id].proxy_port,
                })
                &&& final(self).sessions() == old(self).sessions()
            },
            !connected_in(old(self).sessions(), device_id) ==> {
                &&& plan == (ProxyPlan::Open {
                    teardown: teardown_of(old(self).sessions(), device_id),
                    device_port,
                    proxy_port: proxy_port_of(device_id) as u16,
                })
                &&& final(self).sessions() == old(self).sessions().insert(
                    device_id,
                    fresh_session(device_id, device_uuid, device_port),
                )
            },
            final(self).upcoming() == old(self).upcoming(),
    {
        let existing: Option<DeviceProxyInfo> = self.get_device_proxy(device_id);
        match existing {
            Some(info) => {
                if info.is_connected {
                    return ProxyPlan::Existing { proxy_port: info.proxy_port };
                }
            },
            None => {},
        }
        let teardown: Teardown = self.disconnect_device(device_id);
        let proxy_port: u16 = PROXY_PORT_BASE + (device_id as u16);
        self.device_proxies.insert(
            device_id,
            DeviceProxyInfo {
                device_id,
                device_uuid,
                device_port,
                proxy_port,
                is_connected: false,
                connection: 0,
            },
        );
        ProxyPlan::Open { teardown, device_port, proxy_port }
    }

    /// The answer to the caller of a request for a proxy, once the plan
    /// has been carried out: the viewer port, or the port that could not be
    /// bound. The device-facing listener is opened first.
    pub fn listeners_opened(plan: ProxyPlan, device_bound: bool, viewer_bound: bool) -> (r: Result<
        u16,
        BindError,
    >)
        ensures
            r == plan_result(plan, device_bound, viewer_bound),
    {
        match plan {
            ProxyPlan::Existing { proxy_port } => Ok(proxy_port),
            ProxyPlan::Open { teardown, device_port, proxy_port } => {
                if !device_bound {
                    Err(BindError { port: device_port })
                } else if !viewer_bound {
                    Err(BindError { port: proxy_port })
                } else {
                    Ok(proxy_port)
                }
            },
        }
    }

    /// Clears a device's session and says what is to be torn down with it.
    pub fn disconnect_device(&mut self, device_id: i32) -> (teardown: Teardown)
        ensures
            teardown == teardown_of(old(self).sessions(), device_id),
            final(self).sessions() == old(self).sessions().remove(device_id),
            final(self).upcoming() == old(self).upcoming(),
    {
        match self.device_proxies.remove(&device_id) {
            Some(info) => Teardown {
                close_device: info.is_connected,
                cancel_viewer_listener: true,
            },
            None => Teardown { close_device: false, cancel_viewer_listener: false },
        }
    }

    /// Notes that the device has dialled in and was sent its welcome. The
    /// session is connected and gets a command channel, in place of the one
    /// that an earlier connection had. The connection gets a number of its
    /// own, by which its frames and its end are told from those of an
    /// earlier one. A device without a session is turned away.
    pub fn device_connected(&mut self, device_id: i32) -> (connection: Option<u64>)
        ensures
            old(self).sessions().contains_key(device_id) ==> {
                &&& connection == Some(old(self).upcoming())
                &&& final(self).upcoming() == next_connection(old(self).upcoming())
                &&& final(self).sessions() == with_arrival(
                    old(self).sessions(),
                    device_id,
                    old(self).upcoming(),
                )
            },
            !old(self).sessions().contains_key(device_id) ==> {
                &&& connection is None
                &&& final(self).upcoming() == old(self).upcoming()
                &&& final(self).sessions() == old(self).sessions()
            },
    {
        let existing: Option<DeviceProxyInfo> = self.get_device_proxy(device_id);
        match existing {
            Some(info) => {
                let connection: u64 = self.connections;
                self.connections = if connection == u64::MAX {
                    0
                } else {
                    connection + 1
                };
                self.device_proxies.insert(
                    device_id,
                    DeviceProxyInfo {
                        device_id: info.device_id,
                        device_uuid: info.device_uuid,
                        device_port: info.device_port,
                        proxy_port: info.proxy_port,
                        is_connected: true,
                        connection,
                    },
                );
                Some(connection)
            },
            None => None,
        }
    }

    /// Notes that a connection of the device has ended. Where it was the
    /// live one, the command channel is dropped and the session waits for
    /// the device; the end of a connection that a later one has replaced
    /// changes nothing. Says whether it was the live one.
    pub fn device_disconnected(&mut self, device_id: i32, connection: u64) -> (live: bool)
        ensures
            live == is_live(old(self).sessions(), device_id, connection),
            final(self).sessions() == with_departure(old(self).sessions(), device_id, connection),
            final(self).upcoming() == old(self).upcoming(),
    {
        let existing: Option<DeviceProxyInfo> = self.get_device_proxy(device_id);
        match existing {
            Some(info) => {
                if info.is_connected && info.connection == connection {
                    self.device_proxies.insert(
                        device_id,
                        DeviceProxyInfo {
                            device_id: info.device_id,
                            device_uuid: info.device_uuid,
                            device_port: info.device_port,
                            proxy_port: info.proxy_port,
                            is_connected: false,
                            connection: info.connection,
                        },
                    );
                    true
                } else {
                    false
                }
            },
            None => false,
        }
    }

    /// Handles one frame from a connection of the device. Text goes to the
    /// pipeline, the end of the connection is noted, and every other frame
    /// is passed over.
    pub fn handle_device_frame(&mut self, device_id: i32, connection: u64, frame: DeviceFrame) -> (action:
        FrameAction)
        ensures
            final(self).upcoming() == old(self).upcoming(),
            frame matches DeviceFrame::Text(text) ==> {
                &&& action matches FrameAction::Process(out) && out@ == text@
                &&& final(self).sessions() == old(self).sessions()
            },
            frame is Closed ==> {
                &&& action == (FrameAction::End {
                    was_live: is_live(old(self).sessions(), device_id, connection),
                })
                &&& final(self).sessions() == with_departure(
                    old(self).sessions(),
                    device_id,
                    connection,
                )
            },
            !(frame is Text) && !(frame is Closed) ==> {
                &&& action == FrameAction::Ignore
                &&& final(self).sessions() == old(self).sessions()
            },
    {
        match frame {
            DeviceFrame::Text(text) => FrameAction::Process(text),
            DeviceFrame::Closed => {
                let was_live: bool = self.device_disconnected(device_id, connection);
                FrameAction::End { was_live }
            },
            DeviceFrame::Binary => FrameAction::Ignore,
            DeviceFrame::Ping => FrameAction::Ignore,
            DeviceFrame::Pong => FrameAction::Ignore,
        }
    }

    /// The session of a device, if it has one.
    pub fn get_device_proxy(&self, device_id: i32) -> (info: Option<DeviceProxyInfo>)
        ensures
            info == (if self.sessions().contains_key(device_id) {
                Some(self.sessions()[device_id])
            } else {
                None
            }),
    {
        match self.device_proxies.get(&device_id) {
            Some(info) => Some(*info),
            None => None,
        }
    }

    /// The state of a device's session.
    pub fn session_state(&self, device_id: i32) -> (state: SessionState)
        ensures
            state == state_in(self.sessions(), device_id),
    {
        match self.device_proxies.get(&device_id) {
            Some(info) => if info.is_connected {
                SessionState::Connected
            } else {
                SessionState::AwaitingDevice
            },
            None => SessionState::Idle,
        }
    }

    /// Whether the device is connected.
    pub fn is_device_connected(&self, device_id: i32) -> (b: bool)
        ensures
            b == connected_in(self.sessions(), device_id),
    {
        match self.device_proxies.get(&device_id) {
            Some(info) => info.is_connected,
            None => false,
        }
    }

    /// Decides on a command for the device: it goes onto the command
    /// channel of a connected device, and fails at once for any other.
    pub fn send_device_command(&self, device_id: i32, command: &str) -> (r: Result<
        String,
        NotConnected,
    >)
        ensures
            connected_in(self.sessions(), device_id) ==> (r matches Ok(text) && text@
                == command@),
            !connected_in(self.sessions(), device_id) ==> r == Err::<String, NotConnected>(
                NotConnected { device_id },
            ),
    {
        if self.is_device_connected(device_id) {
            Ok(command.to_owned())
        } else {
            Err(NotConnected { device_id })
        }
    }

    /// Decides on a text that a viewer of the device sent: it is a command
    /// for a connected device, and is dropped for any other.
    pub fn route_viewer_command(&self, device_id: i32, text: String) -> (command: Option<String>)
        ensures
            connected_in(self.sessions(), device_id) ==> (command matches Some(out) && out@
                == text@),
            !connected_in(self.sessions(), device_id) ==> command is None,
    {
        if self.is_device_connected(device_id) {
            Some(text)
        } else {
            None
        }
    }
}

/// The text that a viewer of `device_id` is sent for an event: the event's
/// notification where the event is the device's own, nothing for any other.
pub fn viewer_notification(device_id: i32, event: &UnifiedRealtimeMessage) -> (text: Option<String>)
    ensures
        event.device_id == device_id ==> (text matches Some(out) && out@
            == event.notification@),
        event.device_id != device_id ==> text is None,
{
    if event.device_id == device_id {
        Some(event.notification.clone())
    } else {
        None
    }
}

/// The session's path: a request for a proxy leaves the device awaiting;
/// the device's arrival connects its session; the end of its live
/// connection puts the session back to awaiting; a disconnect ends in idle
/// from any state. A device without a session stays idle when a device
/// arrives or leaves.
pub proof fn lemma_session_path(
    sessions: Map<i32, DeviceProxyInfo>,
    device_id: i32,
    device_uuid: u128,
    device_port: u16,
    connection: u64,
)
    ensures
        state_in(sessions.remove(device_id), device_id) == SessionState::Idle,
        state_in(
            sessions.insert(device_id, fresh_session(device_id, device_uuid, device_port)),
            device_id,
        ) == SessionState::AwaitingDevice,
        state_in(sessions, device_id) != SessionState::Idle ==> state_in(
            with_arrival(sessions, device_id, connection),
            device_id,
        ) == SessionState::Connected,
        is_live(sessions, device_id, connection) ==> state_in(
            with_departure(sessions, device_id, connection),
            device_id,
        ) == SessionState::AwaitingDevice,
        state_in(sessions, device_id) == SessionState::Idle ==> {
            &&& with_arrival(sessions, device_id, connection) == sessions
            &&& with_departure(sessions, device_id, connection) == sessions
        },
        connected_in(sessions, device_id) <==> state_in(sessions, device_id)
            == SessionState::Connected,
{
}

/// A device that dials in again replaces its earlier connection, and the
/// end of the earlier one then leaves the later one connected.
pub proof fn lemma_reconnect_replaces(
    sessions: Map<i32, DeviceProxyInfo>,
    device_id: i32,
    earlier: u64,
    later: u64,
)
    requires
        sessions.contains_key(device_id),
        earlier != later,
    ensures
        is_live(
            with_arrival(with_arrival(sessions, device_id, earlier), device_id, later),
            device_id,
            later,
        ),
        with_departure(
            with_arrival(with_arrival(sessions, device_id, earlier), device_id, later),
            device_id,
            earlier,
        ) == with_arrival(with_arrival(sessions, device_id, earlier), device_id, later),
{
}

/// The viewer port is a function of the device id alone, lies above the
/// base, and no two devices share one.
pub proof fn lemma_proxy_ports(a: i32, b: i32)
    requires
        has_proxy_port(a),
        has_proxy_port(b),
    ensures
        PROXY_PORT_BASE <= proxy_port_of(a) <= u16::MAX,
        a != b ==> proxy_port_of(a) != proxy_port_of(b),
{
}

/// What a request for a proxy comes to, given which listeners were bound.
pub open spec fn plan_result(plan: ProxyPlan, device_bound: bool, viewer_bound: bool) -> Result<
    u16,
    BindError,
> {
    match plan {
        ProxyPlan::Existing { proxy_port } => Ok(proxy_port),
        ProxyPlan::Open { teardown, device_port, proxy_port } => if !device_bound {
            Err(BindError { port: device_port })
        } else if !viewer_bound {
            Err(BindError { port: proxy_port })
        } else {
            Ok(proxy_port)
        },
    }
}

} // verus!
