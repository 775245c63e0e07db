//! One device's wire broker: whether it listens, which clients it holds,
//! and what it makes of what they send.

use crate::error::BindError;
use crate::frame::{connack, connack_bytes, decode_publish, decode_text, kind_of, parse_packet,
    payload_of_text, puback, puback_bytes, requests_ack, Packet, PacketKind};
use crate::json::{JsonDocument, JsonDocumentView};
use crate::registry::{distinct_ids, has_id, without_id, Registry};
use vstd::prelude::*;
use vstd::utf8::{decode_utf8, valid_utf8};

verus! {

/// What the broker emits for one publish.
#[derive(Debug, PartialEq, Eq)]
pub struct MqttBrokerMessage {
    /// The device behind the client, where the broker knows it.
    pub device_id: Option<i32>,
    pub client_id: String,
    pub topic: String,
    pub payload: JsonDocument,
    /// When the publish was read, in milliseconds since the epoch.
    pub timestamp: i64,
}

/// What a `MqttBrokerMessage` stands for.
pub struct MqttBrokerMessageView {
    pub device_id: Option<i32>,
    pub client_id: Seq<char>,
    pub topic: Seq<char>,
    pub payload: JsonDocumentView,
    pub timestamp: i64,
}

impl View for MqttBrokerMessage {
    type V = MqttBrokerMessageView;

    open spec fn view(&self) -> MqttBrokerMessageView {
        MqttBrokerMessageView {
            device_id: self.device_id,
            client_id: self.client_id@,
            topic: self.topic@,
            payload: self.payload@,
            timestamp: self.timestamp,
        }
    }
}

impl DeepView for MqttBrokerMessage {
    type V = MqttBrokerMessageView;

    open spec fn deep_view(&self) -> MqttBrokerMessageView {
        self.view()
    }
}

/// What the broker knows of a client, beside its id.
#[derive(Debug, Clone, Copy, PartialEq, Eq)]
pub struct ClientMeta {
    pub device_id: Option<i32>,
    pub connected_at: i64,
    pub last_seen: i64,
}

/// A client in the broker's table.
#[derive(Debug, PartialEq, Eq)]
pub struct ClientInfo {
    pub client_id: String,
    pub device_id: Option<i32>,
    pub connected_at: i64,
    pub last_seen: i64,
}

/// What the broker owes after one read.
#[derive(Debug)]
pub struct ReadOutcome {
    /// The message to emit, where the read held a publish of valid text.
    pub message: Option<MqttBrokerMessage>,
    /// The acknowledgment to send back, where the sender asked for one.
    pub ack: Option<Vec<u8>>,
}

/// The message that a read of `bytes` from `client_id` at `timestamp` emits.
pub open spec fn read_message(
    client_id: Seq<char>,
    bytes: Seq<u8>,
    timestamp: i64,
) -> Option<MqttBrokerMessageView> {
    if bytes.len() >= 2 && kind_of(bytes[0]) == PacketKind::Publish && valid_utf8(bytes.skip(2)) {
        Some(
            MqttBrokerMessageView {
                device_id: None,
                client_id,
                topic: "data"@,
                payload: payload_of_text(decode_utf8(bytes.skip(2))),
                timestamp,
            },
        )
    } else {
        None
    }
}

/// The device that the table gives for a client id.
pub open spec fn device_of(clients: Seq<(Seq<char>, ClientMeta)>, id: Seq<char>) -> Option<i32>
    decreases clients.len(),
{
    if clients.len() == 0 {
        None
    } else if clients.last().0 == id {
        clients.last().1.device_id
    } else {
        device_of(clients.drop_last(), id)
    }
}

/// A wire broker for one device.
#[derive(Debug)]
pub struct MqttBrokerService {
    port: u16,
    running: bool,
    connected_clients: Registry<ClientMeta>,
}

/// What a `MqttBrokerService` stands for.
pub struct BrokerView {
    /// The port that the broker listens on.
    pub port: u16,
    /// Whether a shutdown signal has been issued and not yet consumed.
    pub running: bool,
    /// The live clients, in the order of their arrival.
    pub clients: Seq<(Seq<char>, ClientMeta)>,
}

impl View for MqttBrokerService {
    type V = BrokerView;

    closed spec fn view(&self) -> BrokerView {
        BrokerView {
            port: self.port,
            running: self.running,
            clients: self.connected_clients@,
        }
    }
}

impl MqttBrokerService {
    /// The client table holds each id once.
    pub open spec fn wf(&self) -> bool {
        distinct_ids(self@.clients)
    }

    /// The port that the broker listens on.
    pub open spec fn spec_port(&self) -> u16 {
        self@.port
    }

    /// Whether a shutdown signal has been issued and not yet consumed.
    pub open spec fn spec_running(&self) -> bool {
        self@.running
    }

    /// The live clients, in the order of their arrival.
    pub open spec fn clients(&self) -> Seq<(Seq<char>, ClientMeta)> {
        self@.clients
    }

    /// A broker for `port` that does not listen yet.
    pub fn new(port: u16) -> (r: Self)
        ensures
            r.wf(),
            r.spec_port() == port,
            !r.spec_running(),
            r.clients() == Seq::<(Seq<char>, ClientMeta)>::empty(),
    {
        MqttBrokerService { port, running: false, connected_clients: Registry::new() }
    }

    /// The port that the broker listens on.
    pub fn port(&self) -> (p: u16)
        ensures
            p == self.spec_port(),
    {
        self.port
    }

    /// Notes the outcome of binding the listener: a bound listener runs
    /// until stopped, a refused port is an error that names the port.
    pub fn start(&mut self, bound: bool) -> (r: Result<(), BindError>)
        ensures
            bound ==> r is Ok && final(self).spec_running(),
            !bound ==> r == Err::<(), BindError>(BindError { port: old(self).spec_port() })
                && final(self).spec_running() == old(self).spec_running(),
            final(self).spec_port() == old(self).spec_port(),
            final(self).clients() == old(self).clients(),
            final(self).wf() == old(self).wf(),
    {
        if bound {
            self.running = true;
            Ok(())
        } else {
            Err(BindError { port: self.port })
        }
    }

    /// Consumes the shutdown signal. Says whether there was one to send.
    pub fn stop(&mut self) -> (signalled: bool)
        ensures
            signalled == old(self).spec_running(),
            !final(self).spec_running(),
            final(self).spec_port() == old(self).spec_port(),
            final(self).clients() == old(self).clients(),
            final(self).wf() == old(self).wf(),
    {
        let signalled: bool = self.running;
        self.running = false;
        signalled
    }

    /// Whether the broker listens.
    pub fn is_running(&self) -> (b: bool)
        ensures
            b == self.spec_running(),
    {
        self.running
    }

    /// Takes a client into the table and hands back the handshake
    /// acknowledgment to send before anything is read.
    pub fn accept_client(&mut self, client_id: String, now: i64) -> (ack: Vec<u8>)
        requires
            old(self).wf(),
        ensures
            final(self).wf(),
            ack@ == connack_bytes(),
            final(self).clients() == without_id(old(self).clients(), client_id@).push(
                (client_id@, ClientMeta { device_id: None, connected_at: now, last_seen: now }),
            ),
            final(self).spec_running() == old(self).spec_running(),
            final(self).spec_port() == old(self).spec_port(),
    {
        self.connected_clients.put(
            client_id,
            ClientMeta { device_id: None, connected_at: now, last_seen: now },
        );
        connack()
    }

    /// Puts a client into the table with the device it stands for.
    pub fn add_client_info(&mut self, client_id: String, device_id: Option<i32>, now: i64)
        requires
            old(self).wf(),
        ensures
            final(self).wf(),
            final(self).clients() == without_id(old(self).clients(), client_id@).push(
                (client_id@, ClientMeta { device_id, connected_at: now, last_seen: now }),
            ),
            final(self).spec_running() == old(self).spec_running(),
            final(self).spec_port() == old(self).spec_port(),
    {
        self.connected_clients.put(
            client_id,
            ClientMeta { device_id, connected_at: now, last_seen: now },
        );
    }

    /// Takes a client out of the table: its connection was closed or failed.
    /// The broker keeps listening.
    pub fn remove_client(&mut self, client_id: &String) -> (known: bool)
        requires
            old(self).wf(),
        ensures
            final(self).wf(),
            known == has_id(old(self).clients(), client_id@),
            final(self).clients() == without_id(old(self).clients(), client_id@),
            final(self).spec_running() == old(self).spec_running(),
            final(self).spec_port() == old(self).spec_port(),
    {
        self.connected_clients.remove(client_id).is_some()
    }

    /// The live clients, in the order of their arrival.
    pub fn get_connected_clients(&self) -> (list: Vec<ClientInfo>)
        ensures
            list.len() == self.clients().len(),
            forall|i: int|
                0 <= i < list.len() ==> {
                    &&& (#[trigger] list[i]).client_id@ == self.clients()[i].0
                    &&& list[i].device_id == self.clients()[i].1.device_id
                    &&& list[i].connected_at == self.clients()[i].1.connected_at
                    &&& list[i].last_seen == self.clients()[i].1.last_seen
                },
    {
        let mut list: Vec<ClientInfo> = Vec::new();
        let mut i: usize = 0;
        while i < self.connected_clients.len()
            invariant
                i <= self.connected_clients@.len(),
                list.len() == i,
                forall|k: int|
                    0 <= k < i ==> {
                        &&& (#[trigger] list[k]).client_id@ == self.clients()[k].0
                        &&& list[k].device_id == self.clients()[k].1.device_id
                        &&& list[k].connected_at == self.clients()[k].1.connected_at
                        &&& list[k].last_seen == self.clients()[k].1.last_seen
                    },
            decreases self.connected_clients@.len() - i,
        {
            let meta: &ClientMeta = self.connected_clients.value_at(i);
            list.push(
                ClientInfo {
                    client_id: self.connected_clients.id_at(i).clone(),
                    device_id: meta.device_id,
                    connected_at: meta.connected_at,
                    last_seen: meta.last_seen,
                },
            );
            i += 1;
        }
        list
    }

    /// The device that the table gives for a client.
    pub fn client_device(&self, client_id: &String) -> (device_id: Option<i32>)
        ensures
            device_id == device_of(self.clients(), client_id@),
    {
        let mut i: usize = self.connected_clients.len();
        assert(self.clients().take(i as int) == self.clients());
        while i > 0
            invariant
                i <= self.connected_clients@.len(),
                device_of(self.clients(), client_id@) == device_of(
                    self.clients().take(i as int),
                    client_id@,
                ),
            decreases i,
        {
            let ghost upto = self.clients().take(i as int);
            assert(upto.drop_last() == self.clients().take(i as int - 1));
            if *self.connected_clients.id_at(i - 1) == *client_id {
                return self.connected_clients.value_at(i - 1).device_id;
            }
            i -= 1;
        }
        None
    }

    /// Handles one read of `n` bytes into `buffer`, the whole read buffer.
    /// A publish of valid text is emitted under the topic `data`; a sender
    /// that asked for an acknowledgment gets one, whatever the frame held.
    pub fn handle_read(client_id: &String, buffer: &[u8], n: usize, now: i64) -> (r: ReadOutcome)
        requires
            1 <= n <= buffer@.len(),
            buffer@.len() >= 4,
        ensures
            r.message.deep_view() == read_message(client_id@, buffer@.take(n as int), now),
            requests_ack(buffer@[0]) ==> r.ack is Some && r.ack->0@ == puback_bytes(buffer@),
            !requests_ack(buffer@[0]) ==> r.ack is None,
    {
        let frame: &[u8] = vstd::slice::slice_subrange(buffer, 0, n);
        let message: Option<MqttBrokerMessage> = match parse_packet(frame) {
            Packet::Publish { qos, payload } => {
                match decode_publish(payload) {
                    Some(document) => Some(
                        MqttBrokerMessage {
                            device_id: None,
                            client_id: client_id.clone(),
                            topic: "data".to_owned(),
                            payload: document,
                            timestamp: now,
                        },
                    ),
                    None => None,
                }
            },
            Packet::Connect => None,
            Packet::Other => None,
        };
        ReadOutcome { message, ack: puback(buffer, n) }
    }

    /// Emits a message as if `client_id` had published `payload` under `topic`.
    pub fn simulate_message(&self, client_id: String, topic: String, payload: &str, now: i64) -> (r:
        MqttBrokerMessage)
        ensures
            r@ == (MqttBrokerMessageView {
                device_id: device_of(self.clients(), client_id@),
                client_id: client_id@,
                topic: topic@,
                payload: payload_of_text(payload@),
                timestamp: now,
            }),
    {
        let device_id: Option<i32> = self.client_device(&client_id);
        MqttBrokerMessage {
            device_id,
            client_id,
            topic,
            payload: decode_text(payload),
            timestamp: now,
        }
    }
}

} // verus!
