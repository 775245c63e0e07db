//! The broadcast hub: the live viewers and, for each event, who gets it.

use crate::json::{lookup, object_map, parse_json, parsed_json, JsonDocument, JsonDocumentView,
    JsonValue, JsonValueView};
use crate::realtime_data::UnifiedRealtimeMessage;
use crate::registry::{distinct_ids, has_id, lemma_without_entries, without_id, Registry};
use vstd::prelude::*;

verus! {

pub type ClientId = String;

pub type DeviceId = i32;

/// A viewer and the device it watches; `None` watches every device.
#[derive(Debug, PartialEq, Eq)]
pub struct ClientConnection {
    pub client_id: ClientId,
    pub device_id: Option<DeviceId>,
}

/// One notification on its way to one viewer.
#[derive(Debug, PartialEq, Eq)]
pub struct Delivery {
    pub client_id: ClientId,
    pub text: String,
}

/// What a `Delivery` stands for.
pub struct DeliveryView {
    pub client_id: Seq<char>,
    pub text: Seq<char>,
}

impl View for Delivery {
    type V = DeliveryView;

    open spec fn view(&self) -> DeliveryView {
        DeliveryView { client_id: self.client_id@, text: self.text@ }
    }
}

impl DeepView for Delivery {
    type V = DeliveryView;

    open spec fn deep_view(&self) -> DeliveryView {
        self.view()
    }
}

/// Whether a viewer with this filter gets the events of `device_id`.
pub open spec fn watches(filter: Option<i32>, device_id: i32) -> bool {
    filter is None || filter == Some(device_id)
}

/// The ids of the viewers that get the events of `device_id`, in the order
/// of the table.
pub open spec fn recipients_of(clients: Seq<(Seq<char>, Option<i32>)>, device_id: i32) -> Seq<
    Seq<char>,
>
    decreases clients.len(),
{
    if clients.len() == 0 {
        Seq::empty()
    } else if watches(clients.last().1, device_id) {
        recipients_of(clients.drop_last(), device_id).push(clients.last().0)
    } else {
        recipients_of(clients.drop_last(), device_id)
    }
}

/// The deliveries of one text to the given viewers.
pub open spec fn deliveries_of(ids: Seq<Seq<char>>, text: Seq<char>) -> Seq<DeliveryView> {
    Seq::new(ids.len(), |i: int| DeliveryView { client_id: ids[i], text })
}

/// A viewer is among the recipients exactly when it is in the table with a
/// filter that watches the device.
pub proof fn lemma_recipients(
    clients: Seq<(Seq<char>, Option<i32>)>,
    device_id: i32,
    id: Seq<char>,
)
    ensures
        recipients_of(clients, device_id).contains(id) <==> exists|i: int|
            0 <= i < clients.len() && #[trigger] clients[i].0 == id && watches(
                clients[i].1,
                device_id,
            ),
    decreases clients.len(),
{
    if clients.len() > 0 {
        let rest = clients.drop_last();
        let last = clients.last();
        lemma_recipients(rest, device_id, id);
        let got = recipients_of(clients, device_id);
        let before = recipients_of(rest, device_id);
        if got.contains(id) {
            if watches(last.1, device_id) {
                let k = choose|k: int| 0 <= k < got.len() && got[k] == id;
                if k == got.len() - 1 {
                    assert(clients[clients.len() - 1].0 == id);
                } else {
                    assert(before[k] == id);
                    assert(before.contains(id));
                    let i = choose|i: int|
                        0 <= i < rest.len() && #[trigger] rest[i].0 == id && watches(
                            rest[i].1,
                            device_id,
                        );
                    assert(clients[i].0 == id);
                }
            } else {
                let i = choose|i: int|
                    0 <= i < rest.len() && #[trigger] rest[i].0 == id && watches(
                        rest[i].1,
                        device_id,
                    );
                assert(clients[i].0 == id);
            }
        }
        if exists|i: int|
            0 <= i < clients.len() && #[trigger] clients[i].0 == id && watches(
                clients[i].1,
                device_id,
            ) {
            let i = choose|i: int|
                0 <= i < clients.len() && #[trigger] clients[i].0 == id && watches(
                    clients[i].1,
                    device_id,
                );
            if i < rest.len() {
                assert(rest[i].0 == id);
                assert(before.contains(id));
                let k = choose|k: int| 0 <= k < before.len() && before[k] == id;
                assert(got[k] == id);
            } else {
                assert(got[got.len() - 1] == id);
            }
        }
    }
}

/// A viewer without a filter gets the events of every device; a viewer with
/// a filter gets those of its device and of no other.
pub proof fn lemma_filter_decides(
    clients: Seq<(Seq<char>, Option<i32>)>,
    i: int,
    device_id: i32,
)
    requires
        0 <= i < clients.len(),
        distinct_ids(clients),
    ensures
        clients[i].1 is None ==> recipients_of(clients, device_id).contains(clients[i].0),
        clients[i].1 matches Some(watched) ==> (recipients_of(clients, device_id).contains(
            clients[i].0,
        ) <==> watched == device_id),
{
    lemma_recipients(clients, device_id, clients[i].0);
    if recipients_of(clients, device_id).contains(clients[i].0) {
        let k = choose|k: int|
            0 <= k < clients.len() && #[trigger] clients[k].0 == clients[i].0 && watches(
                clients[k].1,
                device_id,
            );
        if k < i {
            assert(clients[k].0 != clients[i].0);
        } else if i < k {
            assert(clients[i].0 != clients[k].0);
        }
    }
}

/// Where each viewer is in the table once, each recipient of an event is
/// named once: no viewer gets an event twice.
pub proof fn lemma_recipients_once(clients: Seq<(Seq<char>, Option<i32>)>, device_id: i32)
    requires
        distinct_ids(clients),
    ensures
        recipients_of(clients, device_id).no_duplicates(),
    decreases clients.len(),
{
    if clients.len() > 0 {
        let rest = clients.drop_last();
        let last = clients.last();
        assert(distinct_ids(rest)) by {
            assert forall|a: int, b: int| 0 <= a < b < rest.len() implies rest[a].0
                != rest[b].0 by {
                assert(clients[a].0 != clients[b].0);
            }
        }
        lemma_recipients_once(rest, device_id);
        let before = recipients_of(rest, device_id);
        if watches(last.1, device_id) {
            lemma_recipients(rest, device_id, last.0);
            if before.contains(last.0) {
                let i = choose|i: int|
                    0 <= i < rest.len() && #[trigger] rest[i].0 == last.0 && watches(
                        rest[i].1,
                        device_id,
                    );
                assert(clients[i].0 != clients[clients.len() - 1].0);
            }
            let got = before.push(last.0);
            assert forall|a: int, b: int| 0 <= a < got.len() && 0 <= b < got.len() && a
                != b implies got[a] != got[b] by {
                if a == got.len() - 1 {
                    assert(before[b] == got[b]);
                    assert(before.contains(got[b]));
                } else if b == got.len() - 1 {
                    assert(before[a] == got[a]);
                    assert(before.contains(got[a]));
                } else {
                    assert(before[a] == got[a] && before[b] == got[b]);
                }
            }
        }
    }
}

/// Taking one viewer out of the table changes nothing for any other: each
/// of the others gets the events that it got before.
pub proof fn lemma_drop_leaves_others(
    clients: Seq<(Seq<char>, Option<i32>)>,
    dropped: Seq<char>,
    device_id: i32,
    other: Seq<char>,
)
    requires
        other != dropped,
    ensures
        recipients_of(without_id(clients, dropped), device_id).contains(other)
            <==> recipients_of(clients, device_id).contains(other),
{
    let left = without_id(clients, dropped);
    lemma_recipients(left, device_id, other);
    lemma_recipients(clients, device_id, other);
    if recipients_of(left, device_id).contains(other) {
        let i = choose|i: int|
            0 <= i < left.len() && #[trigger] left[i].0 == other && watches(left[i].1, device_id);
        assert(left.contains(left[i]));
        lemma_without_entries(clients, dropped, left[i]);
        let j = choose|j: int| 0 <= j < clients.len() && clients[j] == left[i];
        assert(clients[j].0 == other);
    }
    if recipients_of(clients, device_id).contains(other) {
        let j = choose|j: int|
            0 <= j < clients.len() && #[trigger] clients[j].0 == other && watches(
                clients[j].1,
                device_id,
            );
        assert(clients.contains(clients[j]));
        lemma_without_entries(clients, dropped, clients[j]);
        let i = choose|i: int| 0 <= i < left.len() && left[i] == clients[j];
        assert(left[i].0 == other);
    }
}

/// The live viewers.
#[derive(Debug)]
pub struct BroadcastService {
    clients: Registry<Option<DeviceId>>,
}

impl BroadcastService {
    /// The table holds each viewer once.
    pub open spec fn wf(&self) -> bool {
        distinct_ids(self.viewers())
    }

    /// The viewers with their filters, in the order of their arrival.
    pub closed spec fn viewers(&self) -> Seq<(Seq<char>, Option<i32>)> {
        self.clients@
    }

    /// A hub without viewers.
    pub fn new() -> (r: Self)
        ensures
            r.wf(),
            r.viewers() == Seq::<(Seq<char>, Option<i32>)>::empty(),
    {
        BroadcastService { clients: Registry::new() }
    }

    /// Registers a viewer, in place of any that had the same id.
    pub fn add_client(&mut self, client_id: ClientId, device_id: Option<DeviceId>)
        requires
            old(self).wf(),
        ensures
            final(self).wf(),
            final(self).viewers() == without_id(old(self).viewers(), client_id@).push(
                (client_id@, device_id),
            ),
            final(self).viewers().len() == (if has_id(old(self).viewers(), client_id@) {
                old(self).viewers().len()
            } else {
                old(self).viewers().len() + 1
            }),
    {
        self.clients.put(client_id, device_id);
    }

    /// Takes a viewer out. Says whether it was there.
    pub fn remove_client(&mut self, client_id: &ClientId) -> (known: bool)
        requires
            old(self).wf(),
        ensures
            final(self).wf(),
            known == has_id(old(self).viewers(), client_id@),
            final(self).viewers() == without_id(old(self).viewers(), client_id@),
            !known ==> final(self).viewers() == old(self).viewers(),
            final(self).viewers().len() == (if known {
                old(self).viewers().len() - 1
            } else {
                old(self).viewers().len() as int
            }),
    {
        self.clients.remove(client_id).is_some()
    }

    /// The number of viewers.
    pub fn get_client_count(&self) -> (n: usize)
        ensures
            n == self.viewers().len(),
    {
        self.clients.len()
    }

    /// The viewers with their filters, in the order of their arrival.
    pub fn clients(&self) -> (list: Vec<ClientConnection>)
        ensures
            list.len() == self.viewers().len(),
            forall|i: int|
                0 <= i < list.len() ==> (#[trigger] list[i]).client_id@ == self.viewers()[i].0
                    && list[i].device_id == self.viewers()[i].1,
    {
        let mut list: Vec<ClientConnection> = Vec::new();
        let mut i: usize = 0;
        while i < self.clients.len()
            invariant
                i <= self.clients@.len(),
                list.len() == i,
                forall|k: int|
                    0 <= k < i ==> (#[trigger] list[k]).client_id@ == self.viewers()[k].0
                        && list[k].device_id == self.viewers()[k].1,
            decreases self.clients@.len() - i,
        {
            list.push(
                ClientConnection {
                    client_id: self.clients.id_at(i).clone(),
                    device_id: *self.clients.value_at(i),
                },
            );
            i += 1;
        }
        list
    }

    /// The ids of the viewers that get the events of `device_id`.
    pub fn recipients(&self, device_id: DeviceId) -> (ids: Vec<ClientId>)
        ensures
            ids.deep_view() == recipients_of(self.viewers(), device_id),
            self.wf() ==> ids.deep_view().no_duplicates(),
    {
        proof {
            if self.wf() {
                lemma_recipients_once(self.viewers(), device_id);
            }
        }
        let mut ids: Vec<ClientId> = Vec::new();
        let mut i: usize = 0;
        while i < self.clients.len()
            invariant
                i <= self.clients@.len(),
                ids.deep_view() == recipients_of(self.viewers().take(i as int), device_id),
            decreases self.clients@.len() - i,
        {
            let ghost seen = self.viewers().take(i as int);
            let ghost next = self.viewers().take(i as int + 1);
            assert(next.drop_last() == seen);
            let filter: Option<DeviceId> = *self.clients.value_at(i);
            let wanted: bool = match filter {
                None => true,
                Some(watched) => watched == device_id,
            };
            if wanted {
                ids.push(self.clients.id_at(i).clone());
            }
            i += 1;
        }
        assert(self.viewers().take(self.clients@.len() as int) == self.viewers());
        ids
    }

    /// The number of viewers that get the events of `device_id`.
    pub fn get_device_client_count(&self, device_id: DeviceId) -> (n: usize)
        ensures
            n == recipients_of(self.viewers(), device_id).len(),
    {
        let ids: Vec<ClientId> = self.recipients(device_id);
        ids.len()
    }

    /// The deliveries that an event asks for: its notification, once for
    /// each viewer that watches its device.
    pub fn fan_out(&self, event: &UnifiedRealtimeMessage) -> (list: Vec<Delivery>)
        ensures
            list.deep_view() == deliveries_of(
                recipients_of(self.viewers(), event.device_id),
                event.notification@,
            ),
    {
        let ids: Vec<ClientId> = self.recipients(event.device_id);
        let mut list: Vec<Delivery> = Vec::new();
        let mut i: usize = 0;
        while i < ids.len()
            invariant
                i <= ids.len(),
                list.len() == i,
                forall|k: int|
                    0 <= k < i ==> (#[trigger] list[k])@ == (DeliveryView {
                        client_id: ids[k]@,
                        text: event.notification@,
                    }),
            decreases ids.len() - i,
        {
            list.push(Delivery { client_id: ids[i].clone(), text: event.notification.clone() });
            i += 1;
        }
        list
    }

    /// Notes that a delivery failed: the viewer is taken out, and the
    /// others stay as they are.
    pub fn delivery_failed(&mut self, client_id: &ClientId)
        requires
            old(self).wf(),
        ensures
            final(self).wf(),
            final(self).viewers() == without_id(old(self).viewers(), client_id@),
            final(self).viewers().len() == (if has_id(old(self).viewers(), client_id@) {
                old(self).viewers().len() - 1
            } else {
                old(self).viewers().len() as int
            }),
    {
        let _ = self.clients.remove(client_id);
    }
}

/// What a viewer asks of the hub with a text of its own.
#[derive(Debug, PartialEq, Eq)]
pub enum ClientRequest {
    /// The viewer wants to watch another device, named under `device_id`.
    SubscribeDevice { device_id: Option<JsonValue> },
    /// The viewer checks that the hub is there.
    Ping,
    /// A request of a type that the hub does not know.
    Unknown { message_type: String },
    /// The text is no request: no JSON object with a string under `type`.
    NotARequest,
}

/// What a `ClientRequest` stands for.
pub enum ClientRequestView {
    SubscribeDevice { device_id: Option<JsonValueView> },
    Ping,
    Unknown { message_type: Seq<char> },
    NotARequest,
}

impl View for ClientRequest {
    type V = ClientRequestView;

    open spec fn view(&self) -> ClientRequestView {
        match self {
            ClientRequest::SubscribeDevice { device_id } => ClientRequestView::SubscribeDevice {
                device_id: device_id.deep_view(),
            },
            ClientRequest::Ping => ClientRequestView::Ping,
            ClientRequest::Unknown { message_type } => ClientRequestView::Unknown {
                message_type: message_type@,
            },
            ClientRequest::NotARequest => ClientRequestView::NotARequest,
        }
    }
}

/// The value under `key` in an object's members.
pub open spec fn member_value(members: Seq<crate::json::MemberView>, key: Seq<char>) -> Option<
    JsonValueView,
> {
    if object_map(members).contains_key(key) {
        Some(object_map(members)[key])
    } else {
        None
    }
}

/// The request that a parsed text holds.
pub open spec fn request_of(parsed: Option<JsonDocumentView>) -> ClientRequestView {
    match parsed {
        Some(document) => match document.members {
            Some(members) => match member_value(members, "type"@) {
                Some(JsonValueView::Text(kind)) => if kind == "subscribe_device"@ {
                    ClientRequestView::SubscribeDevice {
                        device_id: member_value(members, "device_id"@),
                    }
                } else if kind == "ping"@ {
                    ClientRequestView::Ping
                } else {
                    ClientRequestView::Unknown { message_type: kind }
                },
                _ => ClientRequestView::NotARequest,
            },
            None => ClientRequestView::NotARequest,
        },
        None => ClientRequestView::NotARequest,
    }
}

/// Reads the request out of a parsed text.
pub fn request_from(parsed: Option<JsonDocument>) -> (request: ClientRequest)
    ensures
        request@ == request_of(parsed.deep_view()),
{
    match parsed {
        Some(document) => match document.members {
            Some(members) => match lookup(&members, "type") {
                Some(JsonValue::Text(kind)) => {
                    if *kind == "subscribe_device".to_owned() {
                        let device_id: Option<JsonValue> = match lookup(&members, "device_id") {
                            Some(value) => Some(value.clone()),
                            None => None,
                        };
                        ClientRequest::SubscribeDevice { device_id }
                    } else if *kind == "ping".to_owned() {
                        ClientRequest::Ping
                    } else {
                        ClientRequest::Unknown { message_type: kind.clone() }
                    }
                },
                _ => ClientRequest::NotARequest,
            },
            None => ClientRequest::NotARequest,
        },
        None => ClientRequest::NotARequest,
    }
}

/// Reads what a viewer asks with a text of its own.
pub fn classify_client_message(text: &str) -> (request: ClientRequest)
    ensures
        request@ == request_of(parsed_json(text@)),
{
    request_from(parse_json(text))
}

} // verus!
