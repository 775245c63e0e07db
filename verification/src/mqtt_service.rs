//! The broker orchestrator: one wire broker for each device that has broker
//! mode enabled, started and stopped on demand.

use crate::directory::TransportConfig;
use crate::error::BindError;
use crate::json::{JsonDocument, JsonDocumentView};
use crate::frame::connack_bytes;
use crate::mqtt_broker::{BrokerView, ClientInfo, ClientMeta, MqttBrokerMessage, MqttBrokerService};
use crate::registry::{distinct_ids, without_id};
use std::collections::HashMap;
use vstd::prelude::*;

verus! {

broadcast use vstd::std_specs::hash::group_hash_axioms;

/// A broker's message, tagged with the device that the broker serves.
#[derive(Debug, PartialEq, Eq)]
pub struct MqttMessage {
    pub device_id: i32,
    pub topic: String,
    pub payload: JsonDocument,
    pub timestamp: i64,
}

/// What a `MqttMessage` stands for.
pub struct MqttMessageView {
    pub device_id: i32,
    pub topic: Seq<char>,
    pub payload: JsonDocumentView,
    pub timestamp: i64,
}

impl View for MqttMessage {
    type V = MqttMessageView;

    open spec fn view(&self) -> MqttMessageView {
        MqttMessageView {
            device_id: self.device_id,
            topic: self.topic@,
            payload: self.payload@,
            timestamp: self.timestamp,
        }
    }
}

/// A request to run, or not to run, a broker for a device.
#[derive(Debug, Clone, Copy, PartialEq, Eq)]
pub struct MqttDeviceConfig {
    pub device_id: i32,
    pub port: u16,
    pub enabled: bool,
}

/// What an enable request asks the caller to do.
#[derive(Debug, Clone, Copy, PartialEq, Eq)]
pub enum EnableAction {
    /// Broker mode is off for the device: nothing to do.
    Disabled,
    /// A broker already runs for the device: nothing to do.
    AlreadyRunning,
    /// Open a listener on the port and report the outcome.
    Start { device_id: i32, port: u16 },
}

/// The answer to an enable request, given the devices whose broker runs.
pub open spec fn enable_action(running: Set<i32>, config: MqttDeviceConfig) -> EnableAction {
    if !config.enabled {
        EnableAction::Disabled
    } else if running.contains(config.device_id) {
        EnableAction::AlreadyRunning
    } else {
        EnableAction::Start { device_id: config.device_id, port: config.port }
    }
}

/// The devices whose broker runs after a listener was, or was not, bound.
pub open spec fn running_after_start(running: Set<i32>, device_id: i32, bound: bool) -> Set<i32> {
    if bound {
        running.insert(device_id)
    } else {
        running
    }
}

/// The brokers that the directory asks for at start-up: one for each active
/// device with broker mode enabled and a port, in the directory's order.
pub open spec fn directory_configs(devices: Seq<TransportConfig>) -> Seq<MqttDeviceConfig>
    decreases devices.len(),
{
    if devices.len() == 0 {
        Seq::empty()
    } else {
        let rest = directory_configs(devices.drop_last());
        let device = devices.last();
        if device.is_active && device.broker_enabled && device.broker_port is Some {
            rest.push(
                MqttDeviceConfig {
                    device_id: device.device_id,
                    port: device.broker_port->0,
                    enabled: true,
                },
            )
        } else {
            rest
        }
    }
}

/// The brokers that a table of brokers stands for.
pub open spec fn brokers_of(table: Map<i32, MqttBrokerService>) -> Map<i32, BrokerView> {
    Map::new(|d: i32| table.contains_key(d), |d: i32| table[d]@)
}

/// A broker that has just been started on `port`: it runs and holds no client.
pub open spec fn started_broker(port: u16) -> BrokerView {
    BrokerView { port, running: true, clients: Seq::empty() }
}

/// The brokers after a listener was, or was not, bound for a request.
pub open spec fn brokers_after_start(
    brokers: Map<i32, BrokerView>,
    config: MqttDeviceConfig,
    bound: bool,
) -> Map<i32, BrokerView> {
    if bound {
        brokers.insert(config.device_id, started_broker(config.port))
    } else {
        brokers
    }
}

/// The brokers after the clients of one of them have changed; a device
/// without a broker stays without one.
pub open spec fn brokers_with_clients(
    brokers: Map<i32, BrokerView>,
    device_id: i32,
    clients: Seq<(Seq<char>, ClientMeta)>,
) -> Map<i32, BrokerView> {
    if brokers.contains_key(device_id) {
        brokers.insert(device_id, BrokerView { clients, ..brokers[device_id] })
    } else {
        brokers
    }
}

/// The brokers by device, and the requests that were granted.
pub struct MqttService {
    brokers: HashMap<i32, MqttBrokerService>,
    device_configs: HashMap<i32, MqttDeviceConfig>,
}

impl MqttService {
    /// Every broker in the table runs and holds each of its clients once.
    pub open spec fn wf(&self) -> bool {
        forall|d: i32| #[trigger]
            self.brokers().contains_key(d) ==> self.brokers()[d].running && distinct_ids(
                self.brokers()[d].clients,
            )
    }

    /// The brokers by device.
    pub closed spec fn brokers(&self) -> Map<i32, BrokerView> {
        brokers_of(self.brokers@)
    }

    /// The devices whose broker runs.
    pub open spec fn running(&self) -> Set<i32> {
        self.brokers().dom()
    }

    /// The enabled requests, by device.
    pub closed spec fn configs(&self) -> Map<i32, MqttDeviceConfig> {
        self.device_configs@
    }

    /// An orchestrator without brokers.
    pub fn new() -> (r: Self)
        ensures
            r.wf(),
            r.brokers() == Map::<i32, BrokerView>::empty(),
            r.configs() == Map::<i32, MqttDeviceConfig>::empty(),
    {
        let r = MqttService { brokers: HashMap::new(), device_configs: HashMap::new() };
        r
    }

    /// Answers an enable request. A request with broker mode off does
    /// nothing; one for a device whose broker runs does nothing; any other
    /// is noted and asks for a listener. No broker starts or stops here.
    pub fn add_device_config(&mut self, config: MqttDeviceConfig) -> (action: EnableAction)
        ensures
            action == enable_action(old(self).running(), config),
            final(self).brokers() == old(self).brokers(),
            final(self).configs() == (if action is Start {
                old(self).configs().insert(config.device_id, config)
            } else {
                old(self).configs()
            }),
            final(self).wf() == old(self).wf(),
    {
        if !config.enabled {
            return EnableAction::Disabled;
        }
        if self.brokers.contains_key(&config.device_id) {
            return EnableAction::AlreadyRunning;
        }
        self.device_configs.insert(config.device_id, config);
        EnableAction::Start { device_id: config.device_id, port: config.port }
    }

    /// Notes the outcome of binding the listener that a request asked for.
    /// A bound listener puts a running broker into the table; a refused
    /// port is an error and leaves the table as it was.
    pub fn start_broker_for_device(&mut self, config: MqttDeviceConfig, bound: bool) -> (r: Result<
        (),
        BindError,
    >)
        requires
            old(self).wf(),
        ensures
            final(self).wf(),
            bound ==> r is Ok,
            !bound ==> r == Err::<(), BindError>(BindError { port: config.port }),
            final(self).brokers() == brokers_after_start(old(self).brokers(), config, bound),
            final(self).running() == running_after_start(
                old(self).running(),
                config.device_id,
                bound,
            ),
            final(self).configs() == old(self).configs(),
    {
        let mut broker: MqttBrokerService = MqttBrokerService::new(config.port);
        match broker.start(bound) {
            Ok(()) => {
                self.brokers.insert(config.device_id, broker);
                assert forall|d: i32| #[trigger] self.brokers().contains_key(d) implies self.brokers()[d].running
                    && distinct_ids(self.brokers()[d].clients) by {
                    if d != config.device_id {
                        assert(old(self).brokers().contains_key(d));
                    }
                }
                Ok(())
            },
            Err(e) => Err(e),
        }
    }

    /// Stops and forgets a device's broker and forgets its request. Says
    /// whether a broker was stopped; a device without one is no error.
    pub fn remove_device_config(&mut self, device_id: i32) -> (stopped: bool)
        requires
            old(self).wf(),
        ensures
            final(self).wf(),
            stopped == old(self).running().contains(device_id),
            final(self).brokers() == old(self).brokers().remove(device_id),
            !stopped ==> final(self).brokers() == old(self).brokers(),
            final(self).configs() == old(self).configs().remove(device_id),
    {
        let stopped: bool = match self.brokers.remove(&device_id) {
            Some(mut broker) => {
                let _ = broker.stop();
                true
            },
            None => false,
        };
        self.device_configs.remove(&device_id);
        assert forall|d: i32| #[trigger] self.brokers().contains_key(d) implies self.brokers()[d].running
            && distinct_ids(self.brokers()[d].clients) by {
            assert(old(self).brokers().contains_key(d));
        }
        stopped
    }

    /// Takes a client into the table of a device's broker and hands back
    /// the handshake acknowledgment to send. A device without a broker has
    /// no table: nothing changes and nothing is sent.
    pub fn client_connected(&mut self, device_id: i32, client_id: String, now: i64) -> (ack: Option<
        Vec<u8>,
    >)
        requires
            old(self).wf(),
        ensures
            final(self).wf(),
            final(self).configs() == old(self).configs(),
            ack is Some == old(self).running().contains(device_id),
            ack matches Some(frame) ==> frame@ == connack_bytes(),
            final(self).brokers() == brokers_with_clients(
                old(self).brokers(),
                device_id,
                without_id(old(self).brokers()[device_id].clients, client_id@).push(
                    (client_id@, ClientMeta { device_id: None, connected_at: now, last_seen: now }),
                ),
            ),
    {
        match self.brokers.remove(&device_id) {
            Some(mut broker) => {
                assert(old(self).brokers().contains_key(device_id));
                let ack: Vec<u8> = broker.accept_client(client_id, now);
                self.brokers.insert(device_id, broker);
                assert forall|d: i32| #[trigger] self.brokers().contains_key(d) implies self.brokers()[d].running
                    && distinct_ids(self.brokers()[d].clients) by {
                    if d != device_id {
                        assert(old(self).brokers().contains_key(d));
                    }
                }
                Some(ack)
            },
            None => {
                assert(self.brokers() =~= old(self).brokers());
                None
            },
        }
    }

    /// Takes a client out of the table of a device's broker: its
    /// connection was closed or failed. Says whether it was in the table.
    pub fn client_disconnected(&mut self, device_id: i32, client_id: &String) -> (known: bool)
        requires
            old(self).wf(),
        ensures
            final(self).wf(),
            final(self).configs() == old(self).configs(),
            known == (old(self).running().contains(device_id) && crate::registry::has_id(
                old(self).brokers()[device_id].clients,
                client_id@,
            )),
            final(self).brokers() == brokers_with_clients(
                old(self).brokers(),
                device_id,
                without_id(old(self).brokers()[device_id].clients, client_id@),
            ),
    {
        match self.brokers.remove(&device_id) {
            Some(mut broker) => {
                assert(old(self).brokers().contains_key(device_id));
                let known: bool = broker.remove_client(client_id);
                self.brokers.insert(device_id, broker);
                assert forall|d: i32| #[trigger] self.brokers().contains_key(d) implies self.brokers()[d].running
                    && distinct_ids(self.brokers()[d].clients) by {
                    if d != device_id {
                        assert(old(self).brokers().contains_key(d));
                    }
                }
                known
            },
            None => {
                assert(self.brokers() =~= old(self).brokers());
                false
            },
        }
    }

    /// The live clients of a device's broker; none for a device without one.
    pub fn connected_clients(&self, device_id: i32) -> (list: Vec<ClientInfo>)
        ensures
            !self.running().contains(device_id) ==> list.len() == 0,
            self.running().contains(device_id) ==> {
                &&& list.len() == self.brokers()[device_id].clients.len()
                &&& forall|i: int|
                    0 <= i < list.len() ==> {
                        &&& (#[trigger] list[i]).client_id@ == self.brokers()[device_id].clients[i].0
                        &&& list[i].device_id == self.brokers()[device_id].clients[i].1.device_id
                        &&& list[i].connected_at
                            == self.brokers()[device_id].clients[i].1.connected_at
                        &&& list[i].last_seen == self.brokers()[device_id].clients[i].1.last_seen
                    }
            },
    {
        match self.brokers.get(&device_id) {
            Some(broker) => broker.get_connected_clients(),
            None => Vec::new(),
        }
    }

    /// Whether a broker runs for the device.
    pub fn is_device_mqtt_running(&self, device_id: i32) -> (b: bool)
        ensures
            b == self.running().contains(device_id),
    {
        self.brokers.contains_key(&device_id)
    }

    /// The port of a device's broker, if one runs.
    pub fn broker_port(&self, device_id: i32) -> (port: Option<u16>)
        ensures
            port is Some == self.running().contains(device_id),
            port matches Some(p) ==> p == self.brokers()[device_id].port,
    {
        match self.brokers.get(&device_id) {
            Some(broker) => Some(broker.port()),
            None => None,
        }
    }

    /// The enabled requests, by device.
    pub fn get_all_configs(&self) -> (r: HashMap<i32, MqttDeviceConfig>)
        ensures
            r@ == self.configs(),
    {
        self.device_configs.clone()
    }

    /// The enable requests that the directory gives rise to at start-up.
    pub fn load_device_configs(devices: &Vec<TransportConfig>) -> (list: Vec<MqttDeviceConfig>)
        ensures
            list@ == directory_configs(devices@),
    {
        let mut list: Vec<MqttDeviceConfig> = Vec::new();
        let mut i: usize = 0;
        while i < devices.len()
            invariant
                i <= devices.len(),
                list@ == directory_configs(devices@.take(i as int)),
            decreases devices.len() - i,
        {
            assert(devices@.take(i as int + 1).drop_last() == devices@.take(i as int));
            let device: TransportConfig = devices[i];
            if device.is_active && device.broker_enabled {
                match device.broker_port {
                    Some(port) => {
                        list.push(
                            MqttDeviceConfig { device_id: device.device_id, port, enabled: true },
                        );
                    },
                    None => {},
                }
            }
            i += 1;
        }
        assert(devices@.take(devices.len() as int) == devices@);
        list
    }

    /// Tags a broker's message with the device that the broker serves.
    pub fn forward(device_id: i32, message: MqttBrokerMessage) -> (r: MqttMessage)
        ensures
            r@ == (MqttMessageView {
                device_id,
                topic: message@.topic,
                payload: message@.payload,
                timestamp: message@.timestamp,
            }),
    {
        MqttMessage {
            device_id,
            topic: message.topic,
            payload: message.payload,
            timestamp: message.timestamp,
        }
    }
}

/// A request with broker mode off opens no listener, and a device whose
/// broker did not run has none afterwards.
pub proof fn lemma_disabled_request_starts_nothing(
    running: Set<i32>,
    config: MqttDeviceConfig,
    bound: bool,
)
    requires
        !config.enabled,
    ensures
        enable_action(running, config) == EnableAction::Disabled,
        !opens_listener(running, config, bound),
        running_after_request(running, config, bound) == running,
        !running.contains(config.device_id) ==> !running_after_request(
            running,
            config,
            bound,
        ).contains(config.device_id),
{
}

/// Whether a request opens a listener: it asks for one, and the port is bound.
pub open spec fn opens_listener(running: Set<i32>, config: MqttDeviceConfig, bound: bool) -> bool {
    enable_action(running, config) is Start && bound
}

/// The devices whose broker runs once a request has been answered and its
/// listener, if it asked for one, was or was not bound.
pub open spec fn running_after_request(
    running: Set<i32>,
    config: MqttDeviceConfig,
    bound: bool,
) -> Set<i32> {
    if enable_action(running, config) is Start {
        running_after_start(running, config.device_id, bound)
    } else {
        running
    }
}

/// The devices whose broker runs after a row of requests, of which request
/// `i` finds its port bound or not as `bounds[i]` says.
pub open spec fn running_after_requests(
    running: Set<i32>,
    configs: Seq<MqttDeviceConfig>,
    bounds: Seq<bool>,
) -> Set<i32>
    decreases configs.len(),
{
    if configs.len() == 0 {
        running
    } else {
        running_after_request(
            running_after_requests(running, configs.drop_last(), bounds),
            configs.last(),
            bounds[configs.len() - 1],
        )
    }
}

/// Every request of a row is answered on its own: a device's broker runs
/// afterwards exactly when it ran before or one of the device's own enabled
/// requests found its port bound. A request that fails holds up no other.
pub proof fn lemma_requests_are_independent(
    running: Set<i32>,
    configs: Seq<MqttDeviceConfig>,
    bounds: Seq<bool>,
    device_id: i32,
)
    requires
        bounds.len() == configs.len(),
    ensures
        running_after_requests(running, configs, bounds).contains(device_id) <==> (
        running.contains(device_id) || exists|i: int|
            0 <= i < configs.len() && (#[trigger] configs[i]).device_id == device_id
                && configs[i].enabled && bounds[i]),
    decreases configs.len(),
{
    if configs.len() > 0 {
        let rest = configs.drop_last();
        let last = configs.last();
        let n = configs.len() - 1;
        lemma_requests_are_independent_prefix(running, configs, bounds, device_id);
        let before = running_after_requests(running, rest, bounds);
        let after = running_after_requests(running, configs, bounds);
        if after.contains(device_id) && !running.contains(device_id) {
            if before.contains(device_id) {
                let i = choose|i: int|
                    0 <= i < rest.len() && (#[trigger] rest[i]).device_id == device_id
                        && rest[i].enabled && bounds[i];
                assert(configs[i].device_id == device_id && configs[i].enabled && bounds[i]);
            } else {
                assert(configs[n].device_id == device_id && configs[n].enabled && bounds[n]);
            }
        }
        if exists|i: int|
            0 <= i < configs.len() && (#[trigger] configs[i]).device_id == device_id
                && configs[i].enabled && bounds[i] {
            let i = choose|i: int|
                0 <= i < configs.len() && (#[trigger] configs[i]).device_id == device_id
                    && configs[i].enabled && bounds[i];
            if i < n {
                assert(rest[i].device_id == device_id && rest[i].enabled && bounds[i]);
            }
        }
    }
}

proof fn lemma_requests_are_independent_prefix(
    running: Set<i32>,
    configs: Seq<MqttDeviceConfig>,
    bounds: Seq<bool>,
    device_id: i32,
)
    requires
        bounds.len() == configs.len(),
        configs.len() > 0,
    ensures
        running_after_requests(running, configs.drop_last(), bounds).contains(device_id) <==> (
        running.contains(device_id) || exists|i: int|
            0 <= i < configs.len() - 1 && (#[trigger] configs.drop_last()[i]).device_id
                == device_id && configs.drop_last()[i].enabled && bounds[i]),
    decreases configs.len(), 0nat,
{
    let rest = configs.drop_last();
    let shorter = bounds.drop_last();
    lemma_requests_ignore_later_bounds(running, rest, bounds, shorter);
    lemma_requests_are_independent(running, rest, shorter, device_id);
    if exists|i: int|
        0 <= i < rest.len() && (#[trigger] rest[i]).device_id == device_id && rest[i].enabled
            && shorter[i] {
        let i = choose|i: int|
            0 <= i < rest.len() && (#[trigger] rest[i]).device_id == device_id
                && rest[i].enabled && shorter[i];
        assert(rest[i].device_id == device_id && rest[i].enabled && bounds[i]);
    }
    if exists|i: int|
        0 <= i < rest.len() && (#[trigger] rest[i]).device_id == device_id && rest[i].enabled
            && bounds[i] {
        let i = choose|i: int|
            0 <= i < rest.len() && (#[trigger] rest[i]).device_id == device_id
                && rest[i].enabled && bounds[i];
        assert(rest[i].device_id == device_id && rest[i].enabled && shorter[i]);
    }
}

proof fn lemma_requests_ignore_later_bounds(
    running: Set<i32>,
    configs: Seq<MqttDeviceConfig>,
    first: Seq<bool>,
    second: Seq<bool>,
)
    requires
        first.len() >= configs.len(),
        second.len() >= configs.len(),
        forall|i: int| 0 <= i < configs.len() ==> first[i] == second[i],
    ensures
        running_after_requests(running, configs, first) == running_after_requests(
            running,
            configs,
            second,
        ),
    decreases configs.len(),
{
    if configs.len() > 0 {
        lemma_requests_ignore_later_bounds(running, configs.drop_last(), first, second);
    }
}

/// Every request that the directory gives rise to is an enabled one.
pub proof fn lemma_directory_configs_enabled(devices: Seq<TransportConfig>, i: int)
    requires
        0 <= i < directory_configs(devices).len(),
    ensures
        directory_configs(devices)[i].enabled,
    decreases devices.len(),
{
    if devices.len() > 0 {
        let rest = directory_configs(devices.drop_last());
        if i < rest.len() {
            lemma_directory_configs_enabled(devices.drop_last(), i);
        }
    }
}

/// Two enable requests in a row, with no disable between them, open at most
/// one listener: where the first opens one, the second asks for none.
pub proof fn lemma_enable_twice_starts_once(
    running: Set<i32>,
    config: MqttDeviceConfig,
    first_bound: bool,
    second_bound: bool,
)
    ensures
        !(opens_listener(running, config, first_bound) && opens_listener(
            running_after_request(running, config, first_bound),
            config,
            second_bound,
        )),
        opens_listener(running, config, first_bound) ==> enable_action(
            running_after_request(running, config, first_bound),
            config,
        ) == EnableAction::AlreadyRunning,
{
}

} // verus!
