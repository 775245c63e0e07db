//! The composition root: the four services, built once, and the paths that
//! an event takes through them.

use crate::broadcast::{deliveries_of, recipients_of, BroadcastService, Delivery};
use crate::device_websocket_proxy::{connected_in, fresh_session, has_proxy_port, proxy_port_of,
    teardown_of, DeviceProxyInfo, DeviceWebSocketProxyService, ProxyPlan, Teardown};
use crate::directory::TransportConfig;
use crate::error::{BindError, NotConnected};
use crate::json::JsonObject;
use crate::mqtt_broker::{read_message, BrokerView, MqttBrokerMessage, MqttBrokerService};
use crate::mqtt_service::{brokers_after_start, directory_configs, enable_action,
    running_after_start, EnableAction, MqttDeviceConfig, MqttService};
use crate::frame::{puback_bytes, requests_ack};
use crate::realtime_data::{broker_entry, broker_event, frame_fields, frame_message, ingested,
    owed_at_once, rebuild_window, rebuilt, socket_entry, socket_event, PendingDataEntry,
    PipelineView, Processed, RealtimeDataService, StoredRecord, UnifiedRealtimeMessage};
use crate::registry::without_id;
use std::collections::HashMap;
use vstd::prelude::*;

verus! {

/// What one event asks the caller to do.
#[derive(Debug)]
pub struct Dispatch {
    /// The write that the sink is owed at once, if any.
    pub save_now: Option<PendingDataEntry>,
    /// The event, for the unified stream.
    pub event: UnifiedRealtimeMessage,
    /// The notification for each viewer of the hub that watches the device.
    pub deliveries: Vec<Delivery>,
}

/// What one read from a broker client asks the caller to do.
#[derive(Debug)]
pub struct BrokerDispatch {
    /// The acknowledgment to send back, where the sender asked for one.
    pub ack: Option<Vec<u8>>,
    /// What the publish in the read, if any, asks for.
    pub dispatch: Option<Dispatch>,
}

/// The best-effort answer to a status query.
#[derive(Debug)]
pub struct DeviceStatus {
    pub device_id: i32,
    /// Whether the device is connected by socket or has a running broker.
    pub connected: bool,
    pub websocket_connected: bool,
    pub mqtt_running: bool,
    /// The device's latest state; empty where it has none.
    pub data: JsonObject,
}

/// A proxy to open at start-up.
#[derive(Debug, Clone, Copy, PartialEq, Eq)]
pub struct ProxyRequest {
    pub device_id: i32,
    pub device_uuid: u128,
    pub device_port: u16,
}

/// The proxies that the directory asks for at start-up: one for each active
/// device that was marked connected and has a socket port.
pub open spec fn resume_requests(devices: Seq<TransportConfig>) -> Seq<ProxyRequest>
    decreases devices.len(),
{
    if devices.len() == 0 {
        Seq::empty()
    } else {
        let rest = resume_requests(devices.drop_last());
        let device = devices.last();
        if device.is_connected && device.is_active && device.socket_port is Some {
            rest.push(
                ProxyRequest {
                    device_id: device.device_id,
                    device_uuid: device.external_uuid,
                    device_port: device.socket_port->0,
                },
            )
        } else {
            rest
        }
    }
}

/// What is to be opened at start-up.
#[derive(Debug)]
pub struct StartupPlan {
    /// The brokers to enable, in the directory's order.
    pub brokers: Vec<MqttDeviceConfig>,
    /// The proxies to open, in the directory's order.
    pub proxies: Vec<ProxyRequest>,
}

/// The services of the core.
pub struct ServiceManager {
    pub mqtt_service: MqttService,
    pub realtime_service: RealtimeDataService,
    pub device_websocket_proxy: DeviceWebSocketProxyService,
    pub broadcast_service: BroadcastService,
}

impl ServiceManager {
    /// Every service is well formed.
    pub open spec fn wf(&self) -> bool {
        &&& self.mqtt_service.wf()
        &&& self.realtime_service.wf()
        &&& self.broadcast_service.wf()
    }

    /// The services, each in its first state.
    pub fn new() -> (r: Self)
        ensures
            r.wf(),
            r.mqtt_service.brokers() == Map::<i32, BrokerView>::empty(),
            r.mqtt_service.configs() == Map::<i32, MqttDeviceConfig>::empty(),
            r.realtime_service@ == (PipelineView {
                snapshot: Map::empty(),
                pending: Seq::empty(),
                last_saves: Map::empty(),
            }),
            r.device_websocket_proxy.sessions() == Map::<i32, DeviceProxyInfo>::empty(),
            r.device_websocket_proxy.upcoming() == 0,
            r.broadcast_service.viewers() == Seq::<(Seq<char>, Option<i32>)>::empty(),
    {
        ServiceManager {
            mqtt_service: MqttService::new(),
            realtime_service: RealtimeDataService::new(),
            device_websocket_proxy: DeviceWebSocketProxyService::new(),
            broadcast_service: BroadcastService::new(),
        }
    }

    /// Starts the core from what the directory lists and what the store
    /// holds: the snapshot is rebuilt from the stored events, and the plan
    /// names the brokers and proxies to open. Where the stored events could
    /// not be read, the snapshot stays as it is. Opening one broker or proxy
    /// may fail without holding up the others.
    pub fn start(&mut self, devices: &Vec<TransportConfig>, records: Option<&Vec<StoredRecord>>) -> (plan:
        StartupPlan)
        ensures
            plan.brokers@ == directory_configs(devices@),
            plan.proxies@ == resume_requests(devices@),
            records matches Some(stored) ==> {
                &&& final(self).realtime_service.wf()
                &&& final(self).realtime_service@ == (PipelineView {
                    snapshot: rebuilt(rebuild_window(stored.deep_view())),
                    ..old(self).realtime_service@
                })
            },
            records is None ==> final(self).realtime_service == old(self).realtime_service,
            final(self).mqtt_service == old(self).mqtt_service,
            final(self).device_websocket_proxy == old(self).device_websocket_proxy,
            final(self).broadcast_service == old(self).broadcast_service,
    {
        let brokers: Vec<MqttDeviceConfig> = MqttService::load_device_configs(devices);
        match records {
            Some(stored) => {
                self.realtime_service.load_device_states(stored);
            },
            None => {},
        }
        let proxies: Vec<ProxyRequest> = ServiceManager::auto_connect_devices(devices);
        StartupPlan { brokers, proxies }
    }

    /// Answers a request to run, or not to run, a broker for a device.
    pub fn add_device_mqtt_config(&mut self, device_id: i32, port: u16, enabled: bool) -> (action:
        EnableAction)
        ensures
            action == enable_action(
                old(self).mqtt_service.running(),
                MqttDeviceConfig { device_id, port, enabled },
            ),
            final(self).mqtt_service.brokers() == old(self).mqtt_service.brokers(),
            final(self).mqtt_service.configs() == (if action is Start {
                old(self).mqtt_service.configs().insert(
                    device_id,
                    MqttDeviceConfig { device_id, port, enabled },
                )
            } else {
                old(self).mqtt_service.configs()
            }),
            final(self).mqtt_service.wf() == old(self).mqtt_service.wf(),
            final(self).realtime_service == old(self).realtime_service,
            final(self).device_websocket_proxy == old(self).device_websocket_proxy,
            final(self).broadcast_service == old(self).broadcast_service,
    {
        self.mqtt_service.add_device_config(MqttDeviceConfig { device_id, port, enabled })
    }

    /// Notes whether the listener that an enable request asked for was bound.
    pub fn mqtt_listener_bound(&mut self, device_id: i32, port: u16, bound: bool) -> (r: Result<
        (),
        BindError,
    >)
        requires
            old(self).wf(),
        ensures
            final(self).wf(),
            bound ==> r is Ok,
            !bound ==> r == Err::<(), BindError>(BindError { port }),
            final(self).mqtt_service.brokers() == brokers_after_start(
                old(self).mqtt_service.brokers(),
                MqttDeviceConfig { device_id, port, enabled: true },
                bound,
            ),
            final(self).mqtt_service.running() == running_after_start(
                old(self).mqtt_service.running(),
                device_id,
                bound,
            ),
            final(self).mqtt_service.configs() == old(self).mqtt_service.configs(),
            final(self).realtime_service == old(self).realtime_service,
            final(self).device_websocket_proxy == old(self).device_websocket_proxy,
            final(self).broadcast_service == old(self).broadcast_service,
    {
        self.mqtt_service.start_broker_for_device(
            MqttDeviceConfig { device_id, port, enabled: true },
            bound,
        )
    }

    /// Stops a device's broker. A device without one is no error, and the
    /// brokers stay as they are.
    pub fn remove_device_mqtt_config(&mut self, device_id: i32) -> (stopped: bool)
        requires
            old(self).wf(),
        ensures
            final(self).wf(),
            stopped == old(self).mqtt_service.running().contains(device_id),
            final(self).mqtt_service.brokers() == old(self).mqtt_service.brokers().remove(
                device_id,
            ),
            !stopped ==> final(self).mqtt_service.brokers() == old(self).mqtt_service.brokers(),
            final(self).mqtt_service.configs() == old(self).mqtt_service.configs().remove(
                device_id,
            ),
            final(self).realtime_service == old(self).realtime_service,
            final(self).device_websocket_proxy == old(self).device_websocket_proxy,
            final(self).broadcast_service == old(self).broadcast_service,
    {
        self.mqtt_service.remove_device_config(device_id)
    }

    /// Whether a broker runs for the device.
    pub fn is_mqtt_running(&self, device_id: i32) -> (b: bool)
        ensures
            b == self.mqtt_service.running().contains(device_id),
    {
        self.mqtt_service.is_device_mqtt_running(device_id)
    }

    /// Answers a request for a device's proxy.
    pub fn create_device_websocket_proxy(
        &mut self,
        device_id: i32,
        device_uuid: u128,
        device_port: u16,
    ) -> (plan: ProxyPlan)
        requires
            has_proxy_port(device_id),
        ensures
            connected_in(old(self).device_websocket_proxy.sessions(), device_id) ==> {
                &&& plan == (ProxyPlan::Existing {
                    proxy_port: old(self).device_websocket_proxy.sessions()[device_id].proxy_port,
                })
                &&& final(self).device_websocket_proxy.sessions() == old(self).device_websocket_proxy.sessions()
            },
            !connected_in(old(self).device_websocket_proxy.sessions(), device_id) ==> {
                &&& plan == (ProxyPlan::Open {
                    teardown: teardown_of(old(self).device_websocket_proxy.sessions(), device_id),
                    device_port,
                    proxy_port: proxy_port_of(device_id) as u16,
                })
                &&& final(self).device_websocket_proxy.sessions() == old(self).device_websocket_proxy.sessions().insert(
                    device_id,
                    fresh_session(device_id, device_uuid, device_port),
                )
            },
            final(self).mqtt_service == old(self).mqtt_service,
            final(self).realtime_service == old(self).realtime_service,
            final(self).broadcast_service == old(self).broadcast_service,
    {
        self.device_websocket_proxy.create_device_proxy(device_id, device_uuid, device_port)
    }

    /// Clears a device's session and says what is to be torn down with it.
    pub fn disconnect_device_websocket_proxy(&mut self, device_id: i32) -> (teardown: Teardown)
        ensures
            teardown == teardown_of(old(self).device_websocket_proxy.sessions(), device_id),
            final(self).device_websocket_proxy.sessions() == old(self).device_websocket_proxy.sessions().remove(device_id),
            final(self).mqtt_service == old(self).mqtt_service,
            final(self).realtime_service == old(self).realtime_service,
            final(self).broadcast_service == old(self).broadcast_service,
    {
        self.device_websocket_proxy.disconnect_device(device_id)
    }

    /// Whether the device is connected to its proxy.
    pub fn is_device_websocket_proxy_connected(&self, device_id: i32) -> (b: bool)
        ensures
            b == connected_in(self.device_websocket_proxy.sessions(), device_id),
    {
        self.device_websocket_proxy.is_device_connected(device_id)
    }

    /// Whether the device is connected.
    pub fn is_device_connected(&self, device_id: i32) -> (b: bool)
        ensures
            b == connected_in(self.device_websocket_proxy.sessions(), device_id),
    {
        self.device_websocket_proxy.is_device_connected(device_id)
    }

    /// Decides on a command for the device.
    pub fn send_device_command(&self, device_id: i32, command: &str) -> (r: Result<
        String,
        NotConnected,
    >)
        ensures
            connected_in(self.device_websocket_proxy.sessions(), device_id) ==> (r matches Ok(
                text,
            ) && text@ == command@),
            !connected_in(self.device_websocket_proxy.sessions(), device_id) ==> r == Err::<
                String,
                NotConnected,
            >(NotConnected { device_id }),
    {
        self.device_websocket_proxy.send_device_command(device_id, command)
    }

    /// Decides on a command for the device.
    pub fn send_device_websocket_command(&self, device_id: i32, command: &str) -> (r: Result<
        String,
        NotConnected,
    >)
        ensures
            connected_in(self.device_websocket_proxy.sessions(), device_id) ==> (r matches Ok(
                text,
            ) && text@ == command@),
            !connected_in(self.device_websocket_proxy.sessions(), device_id) ==> r == Err::<
                String,
                NotConnected,
            >(NotConnected { device_id }),
    {
        self.device_websocket_proxy.send_device_command(device_id, command)
    }

    fn dispatch(&self, processed: Processed) -> (r: Dispatch)
        ensures
            r.save_now == processed.save_now,
            r.event == processed.event,
            r.deliveries.deep_view() == deliveries_of(
                recipients_of(self.broadcast_service.viewers(), processed.event.device_id),
                processed.event.notification@,
            ),
    {
        let deliveries: Vec<Delivery> = self.broadcast_service.fan_out(&processed.event);
        Dispatch { save_now: processed.save_now, event: processed.event, deliveries }
    }

    /// Takes in one frame from a device's socket. A frame that is no
    /// message produces nothing and changes nothing. A message is merged
    /// into the device's state, scheduled for storage, and fanned out to
    /// the viewers that watch the device.
    pub fn process_websocket_message(
        &mut self,
        device_id: i32,
        message: &str,
        timestamp: i64,
        now: u64,
    ) -> (r: Option<Dispatch>)
        requires
            old(self).wf(),
        ensures
            final(self).wf(),
            final(self).mqtt_service == old(self).mqtt_service,
            final(self).device_websocket_proxy == old(self).device_websocket_proxy,
            final(self).broadcast_service == old(self).broadcast_service,
            r is Some == frame_fields(message@) is Some,
            frame_fields(message@) is None ==> final(self).realtime_service@ == old(self).realtime_service@,
            frame_message(device_id, message@, timestamp) matches Some(parsed) ==> {
                &&& final(self).realtime_service@ == ingested(
                    old(self).realtime_service@,
                    socket_entry(parsed),
                    now,
                )
                &&& r->0.save_now.deep_view() == owed_at_once(
                    old(self).realtime_service@,
                    socket_entry(parsed),
                    now,
                )
                &&& r->0.event@ == socket_event(parsed)
                &&& r->0.deliveries.deep_view() == deliveries_of(
                    recipients_of(old(self).broadcast_service.viewers(), device_id),
                    socket_event(parsed).notification,
                )
            },
    {
        match self.realtime_service.process_device_frame(device_id, message, timestamp, now) {
            Some(processed) => Some(self.dispatch(processed)),
            None => None,
        }
    }

    /// Takes in one message that a device's broker emitted: it is tagged
    /// with the device, merged into the device's state, scheduled for
    /// storage, and fanned out to the viewers that watch the device.
    pub fn process_broker_message(&mut self, device_id: i32, message: MqttBrokerMessage, now: u64) -> (r:
        Dispatch)
        requires
            old(self).wf(),
        ensures
            final(self).wf(),
            final(self).mqtt_service == old(self).mqtt_service,
            final(self).device_websocket_proxy == old(self).device_websocket_proxy,
            final(self).broadcast_service == old(self).broadcast_service,
            final(self).realtime_service@ == ingested(
                old(self).realtime_service@,
                broker_entry(device_id, message@.payload, message@.timestamp),
                now,
            ),
            r.save_now.deep_view() == owed_at_once(
                old(self).realtime_service@,
                broker_entry(device_id, message@.payload, message@.timestamp),
                now,
            ),
            r.event@ == broker_event(device_id, message@.payload, message@.timestamp),
            r.deliveries.deep_view() == deliveries_of(
                recipients_of(old(self).broadcast_service.viewers(), device_id),
                broker_event(device_id, message@.payload, message@.timestamp).notification,
            ),
    {
        let tagged = MqttService::forward(device_id, message);
        let processed: Processed = self.realtime_service.process_mqtt_message(
            tagged.device_id,
            tagged.payload,
            tagged.timestamp,
            now,
        );
        self.dispatch(processed)
    }

    /// Handles one read of `n` bytes from a client of a device's broker.
    pub fn handle_broker_read(
        &mut self,
        device_id: i32,
        client_id: &String,
        buffer: &[u8],
        n: usize,
        timestamp: i64,
        now: u64,
    ) -> (r: BrokerDispatch)
        requires
            old(self).wf(),
            1 <= n <= buffer@.len(),
            buffer@.len() >= 4,
        ensures
            final(self).wf(),
            requests_ack(buffer@[0]) ==> r.ack is Some && r.ack->0@ == puback_bytes(buffer@),
            !requests_ack(buffer@[0]) ==> r.ack is None,
            r.dispatch is Some == read_message(client_id@, buffer@.take(n as int), timestamp)
                is Some,
            read_message(client_id@, buffer@.take(n as int), timestamp) matches Some(message) ==> {
                &&& final(self).realtime_service@ == ingested(
                    old(self).realtime_service@,
                    broker_entry(device_id, message.payload, message.timestamp),
                    now,
                )
                &&& r.dispatch->0.save_now.deep_view() == owed_at_once(
                    old(self).realtime_service@,
                    broker_entry(device_id, message.payload, message.timestamp),
                    now,
                )
                &&& r.dispatch->0.event@ == broker_event(
                    device_id,
                    message.payload,
                    message.timestamp,
                )
                &&& r.dispatch->0.deliveries.deep_view() == deliveries_of(
                    recipients_of(old(self).broadcast_service.viewers(), device_id),
                    broker_event(device_id, message.payload, message.timestamp).notification,
                )
            },
            read_message(client_id@, buffer@.take(n as int), timestamp) is None ==> final(self).realtime_service == old(self).realtime_service,
            final(self).mqtt_service == old(self).mqtt_service,
            final(self).device_websocket_proxy == old(self).device_websocket_proxy,
            final(self).broadcast_service == old(self).broadcast_service,
    {
        let outcome = MqttBrokerService::handle_read(client_id, buffer, n, timestamp);
        let dispatch: Option<Dispatch> = match outcome.message {
            Some(message) => Some(self.process_broker_message(device_id, message, now)),
            None => None,
        };
        BrokerDispatch { ack: outcome.ack, dispatch }
    }

    /// The latest state of a device, if it has one.
    pub fn get_device_state(&self, device_id: i32) -> (r: Option<JsonObject>)
        requires
            self.wf(),
        ensures
            r is Some == self.realtime_service@.snapshot.contains_key(device_id),
            r matches Some(object) ==> object.wf() && object@
                == self.realtime_service@.snapshot[device_id],
    {
        self.realtime_service.get_device_state(device_id)
    }

    /// The latest state of every device.
    pub fn get_all_device_states(&self) -> (r: HashMap<i32, JsonObject>)
        requires
            self.wf(),
        ensures
            crate::realtime_data::snapshot_of(r@) == self.realtime_service@.snapshot,
            forall|d: i32| #[trigger] r@.contains_key(d) ==> r@[d].wf(),
    {
        self.realtime_service.get_all_device_states()
    }

    /// Registers a viewer of the hub.
    pub fn add_websocket_client(&mut self, client_id: String, device_id: Option<i32>)
        requires
            old(self).wf(),
        ensures
            final(self).wf(),
            final(self).broadcast_service.viewers() == without_id(
                old(self).broadcast_service.viewers(),
                client_id@,
            ).push((client_id@, device_id)),
            final(self).mqtt_service == old(self).mqtt_service,
            final(self).realtime_service == old(self).realtime_service,
            final(self).device_websocket_proxy == old(self).device_websocket_proxy,
    {
        self.broadcast_service.add_client(client_id, device_id);
    }

    /// Takes a viewer of the hub out.
    pub fn remove_websocket_client(&mut self, client_id: &String)
        requires
            old(self).wf(),
        ensures
            final(self).wf(),
            final(self).broadcast_service.viewers() == without_id(
                old(self).broadcast_service.viewers(),
                client_id@,
            ),
            final(self).mqtt_service == old(self).mqtt_service,
            final(self).realtime_service == old(self).realtime_service,
            final(self).device_websocket_proxy == old(self).device_websocket_proxy,
    {
        let _ = self.broadcast_service.remove_client(client_id);
    }

    /// The number of viewers of the hub.
    pub fn get_websocket_client_count(&self) -> (n: usize)
        ensures
            n == self.broadcast_service.viewers().len(),
    {
        self.broadcast_service.get_client_count()
    }

    /// Answers a status query for a device. A device of which nothing is
    /// known is disconnected, with empty data.
    pub fn get_device_status(&self, device_id: i32) -> (status: DeviceStatus)
        requires
            self.wf(),
        ensures
            status.device_id == device_id,
            status.websocket_connected == connected_in(
                self.device_websocket_proxy.sessions(),
                device_id,
            ),
            status.mqtt_running == self.mqtt_service.running().contains(device_id),
            status.connected == (status.websocket_connected || status.mqtt_running),
            status.data.wf(),
            status.data@ == (if self.realtime_service@.snapshot.contains_key(device_id) {
                self.realtime_service@.snapshot[device_id]
            } else {
                Map::empty()
            }),
    {
        let websocket_connected: bool = self.is_device_websocket_proxy_connected(device_id);
        let mqtt_running: bool = self.is_mqtt_running(device_id);
        let data: JsonObject = match self.get_device_state(device_id) {
            Some(object) => object,
            None => JsonObject::new(),
        };
        DeviceStatus {
            device_id,
            connected: websocket_connected || mqtt_running,
            websocket_connected,
            mqtt_running,
            data,
        }
    }

    /// The proxies to open at start-up.
    pub fn auto_connect_devices(devices: &Vec<TransportConfig>) -> (list: Vec<ProxyRequest>)
        ensures
            list@ == resume_requests(devices@),
    {
        let mut list: Vec<ProxyRequest> = Vec::new();
        let mut i: usize = 0;
        while i < devices.len()
            invariant
                i <= devices.len(),
                list@ == resume_requests(devices@.take(i as int)),
            decreases devices.len() - i,
        {
            assert(devices@.take(i as int + 1).drop_last() == devices@.take(i as int));
            let device: TransportConfig = devices[i];
            if device.is_connected && device.is_active {
                match device.socket_port {
                    Some(port) => {
                        list.push(
                            ProxyRequest {
                                device_id: device.device_id,
                                device_uuid: device.external_uuid,
                                device_port: port,
                            },
                        );
                    },
                    None => {},
                }
            }
            i += 1;
        }
        assert(devices@.take(devices.len() as int) == devices@);
        list
    }
}

} // verus!
