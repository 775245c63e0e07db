//! The ingest pipeline: every inbound event is normalized here, merged into
//! the latest-state snapshot of its device and scheduled for storage.

use crate::json::{object_map, text_document, text_document_view, JsonDocument, JsonDocumentView,
    JsonObject, JsonValueView};
use crate::text::{chars_of, find_char, find_from, lemma_find_from, slice_of, string_of,
    strip_control, strip_control_text, trim_chars, trimmed};
use std::collections::HashMap;
use vstd::prelude::*;

verus! {

broadcast use vstd::std_specs::hash::group_hash_axioms;

/// After this many milliseconds a device's next event is stored at once.
pub const IMMEDIATE_SAVE_INTERVAL_MS: u64 = 30000;

/// The pending writes are flushed every so many milliseconds.
pub const FLUSH_INTERVAL_MS: u64 = 5000;

/// At most this many stored events rebuild the snapshot at start-up.
pub const INITIAL_STATE_LIMIT: usize = 1000;

/// The transport that an event came by.
#[derive(Debug, Clone, Copy, PartialEq, Eq)]
pub enum Transport {
    Socket,
    Broker,
}

/// The name under which a transport is stored.
pub open spec fn transport_name(transport: Transport) -> Seq<char> {
    match transport {
        Transport::Socket => "socket"@,
        Transport::Broker => "broker"@,
    }
}

impl Transport {
    /// The name under which the transport is stored.
    pub fn name(&self) -> (r: &'static str)
        ensures
            r@ == transport_name(*self),
    {
        match self {
            Transport::Socket => "socket",
            Transport::Broker => "broker",
        }
    }
}

/// One field and its value, as a device sent them over its socket.
#[derive(Debug, PartialEq, Eq)]
pub struct WebSocketMessage {
    pub device_id: i32,
    pub field: String,
    pub value: String,
    /// When the frame was read, in milliseconds since the epoch.
    pub timestamp: i64,
}

/// What a `WebSocketMessage` stands for.
pub struct WebSocketMessageView {
    pub device_id: i32,
    pub field: Seq<char>,
    pub value: Seq<char>,
    pub timestamp: i64,
}

impl View for WebSocketMessage {
    type V = WebSocketMessageView;

    open spec fn view(&self) -> WebSocketMessageView {
        WebSocketMessageView {
            device_id: self.device_id,
            field: self.field@,
            value: self.value@,
            timestamp: self.timestamp,
        }
    }
}

impl DeepView for WebSocketMessage {
    type V = WebSocketMessageView;

    open spec fn deep_view(&self) -> WebSocketMessageView {
        self.view()
    }
}

/// The field and value that a device frame holds, untrimmed. The frame is
/// split at its first two colons: of three parts the first is dropped, two
/// parts are taken as they stand, and a frame without a colon holds nothing.
pub open spec fn split_fields(s: Seq<char>) -> Option<(Seq<char>, Seq<char>)> {
    let first = find_from(s, ':', 0);
    if first >= s.len() {
        None
    } else {
        let second = find_from(s, ':', first + 1);
        if second >= s.len() {
            Some((s.subrange(0, first), s.subrange(first + 1, s.len() as int)))
        } else {
            Some((s.subrange(first + 1, second), s.subrange(second + 1, s.len() as int)))
        }
    }
}

/// The field and value of a device frame, each without surrounding white space.
pub open spec fn frame_fields(s: Seq<char>) -> Option<(Seq<char>, Seq<char>)> {
    match split_fields(s) {
        Some(parts) => Some((trimmed(parts.0), trimmed(parts.1))),
        None => None,
    }
}

/// The message that a device frame stands for, read at `timestamp`.
pub open spec fn frame_message(device_id: i32, s: Seq<char>, timestamp: i64) -> Option<
    WebSocketMessageView,
> {
    match frame_fields(s) {
        Some(parts) => Some(
            WebSocketMessageView { device_id, field: parts.0, value: parts.1, timestamp },
        ),
        None => None,
    }
}

/// Splits a device frame into field and value.
pub fn parse_fields(message: &str) -> (r: Option<(String, String)>)
    ensures
        r.deep_view() == frame_fields(message@),
{
    let chars: Vec<char> = chars_of(message);
    let n: usize = chars.len();
    let first: usize = find_char(&chars, ':', 0);
    if first >= n {
        return None;
    }
    let second: usize = find_char(&chars, ':', first + 1);
    let field: Vec<char>;
    let value: Vec<char>;
    if second >= n {
        field = slice_of(&chars, 0, first);
        value = slice_of(&chars, first + 1, n);
    } else {
        field = slice_of(&chars, first + 1, second);
        value = slice_of(&chars, second + 1, n);
    }
    let field: Vec<char> = trim_chars(&field);
    let value: Vec<char> = trim_chars(&value);
    Some((string_of(&field), string_of(&value)))
}

/// Whether a device's event is stored at once: its first event is, and so
/// is one that comes a full interval after the last one stored at once.
pub open spec fn save_is_due(last: Option<u64>, now: u64) -> bool {
    match last {
        None => true,
        Some(at) => now >= at && now - at >= IMMEDIATE_SAVE_INTERVAL_MS,
    }
}

/// An event in the one shape that every transport is brought to.
#[derive(Debug, PartialEq, Eq)]
pub struct UnifiedRealtimeMessage {
    pub device_id: i32,
    pub message_type: Transport,
    /// The normalized payload.
    pub data: JsonDocument,
    /// The text that a viewer of the device is sent.
    pub notification: String,
    /// When the event was observed, in milliseconds since the epoch.
    pub timestamp: i64,
}

/// What a `UnifiedRealtimeMessage` stands for.
pub struct UnifiedRealtimeMessageView {
    pub device_id: i32,
    pub message_type: Transport,
    pub data: JsonDocumentView,
    pub notification: Seq<char>,
    pub timestamp: i64,
}

impl View for UnifiedRealtimeMessage {
    type V = UnifiedRealtimeMessageView;

    open spec fn view(&self) -> UnifiedRealtimeMessageView {
        UnifiedRealtimeMessageView {
            device_id: self.device_id,
            message_type: self.message_type,
            data: self.data@,
            notification: self.notification@,
            timestamp: self.timestamp,
        }
    }
}

impl Clone for UnifiedRealtimeMessage {
    fn clone(&self) -> (r: Self)
        ensures
            r@ == self@,
    {
        UnifiedRealtimeMessage {
            device_id: self.device_id,
            message_type: self.message_type,
            data: self.data.clone(),
            notification: self.notification.clone(),
            timestamp: self.timestamp,
        }
    }
}

/// A write that waits for the sink.
#[derive(Debug, PartialEq, Eq)]
pub struct PendingDataEntry {
    pub device_id: i32,
    pub data_type: Transport,
    pub data_content: JsonDocument,
    pub timestamp: i64,
}

/// What a `PendingDataEntry` stands for.
pub struct PendingDataEntryView {
    pub device_id: i32,
    pub data_type: Transport,
    pub data_content: JsonDocumentView,
    pub timestamp: i64,
}

impl View for PendingDataEntry {
    type V = PendingDataEntryView;

    open spec fn view(&self) -> PendingDataEntryView {
        PendingDataEntryView {
            device_id: self.device_id,
            data_type: self.data_type,
            data_content: self.data_content@,
            timestamp: self.timestamp,
        }
    }
}

impl DeepView for PendingDataEntry {
    type V = PendingDataEntryView;

    open spec fn deep_view(&self) -> PendingDataEntryView {
        self.view()
    }
}

impl Clone for PendingDataEntry {
    fn clone(&self) -> (r: Self)
        ensures
            r@ == self@,
    {
        PendingDataEntry {
            device_id: self.device_id,
            data_type: self.data_type,
            data_content: self.data_content.clone(),
            timestamp: self.timestamp,
        }
    }
}

/// What the pipeline hands back for one event: the write that is owed at
/// once, if any, and the event to publish.
#[derive(Debug)]
pub struct Processed {
    pub save_now: Option<PendingDataEntry>,
    pub event: UnifiedRealtimeMessage,
}

/// A stored event, as the start-up rebuild reads it.
#[derive(Debug)]
pub struct StoredRecord {
    pub device_id: i32,
    pub data_content: JsonDocument,
}

/// What a `StoredRecord` stands for.
pub struct StoredRecordView {
    pub device_id: i32,
    pub data_content: JsonDocumentView,
}

impl View for StoredRecord {
    type V = StoredRecordView;

    open spec fn view(&self) -> StoredRecordView {
        StoredRecordView { device_id: self.device_id, data_content: self.data_content@ }
    }
}

impl DeepView for StoredRecord {
    type V = StoredRecordView;

    open spec fn deep_view(&self) -> StoredRecordView {
        self.view()
    }
}

/// The value under `key`, if the map has one.
pub open spec fn value_at<V>(m: Map<i32, V>, key: i32) -> Option<V> {
    if m.contains_key(key) {
        Some(m[key])
    } else {
        None
    }
}

/// A device's state after a payload: the members of an object payload
/// overwrite the keys they name and add the others; any other payload
/// changes nothing. A device without a state starts from the empty object.
pub open spec fn merged_object(
    current: Option<Map<Seq<char>, JsonValueView>>,
    payload: JsonDocumentView,
) -> Map<Seq<char>, JsonValueView> {
    let base = match current {
        Some(object) => object,
        None => Map::empty(),
    };
    match payload.members {
        Some(members) => base.union_prefer_right(object_map(members)),
        None => base,
    }
}

/// The snapshot after one more payload for `device_id`.
pub open spec fn snapshot_with(
    snapshot: Map<i32, Map<Seq<char>, JsonValueView>>,
    device_id: i32,
    payload: JsonDocumentView,
) -> Map<i32, Map<Seq<char>, JsonValueView>> {
    snapshot.insert(device_id, merged_object(value_at(snapshot, device_id), payload))
}

/// The text that viewers get for a socket event.
pub open spec fn socket_notification(field: Seq<char>, value: Seq<char>) -> Seq<char> {
    field + ":"@ + value
}

/// The text that viewers get for a broker event.
pub open spec fn broker_notification(rendered: Seq<char>) -> Seq<char> {
    "broker:"@ + rendered
}

/// The snapshot that a table of objects stands for.
pub open spec fn snapshot_of(states: Map<i32, JsonObject>) -> Map<
    i32,
    Map<Seq<char>, JsonValueView>,
> {
    Map::new(|d: i32| states.contains_key(d), |d: i32| states[d]@)
}

/// The payload of a socket event: the object with the field as its one
/// key, and under it the value as text, without raw control characters.
pub open spec fn socket_payload(field: Seq<char>, value: Seq<char>) -> JsonDocumentView {
    text_document_view(seq![(field, strip_control(value))])
}

/// The write that a socket event asks for.
pub open spec fn socket_entry(message: WebSocketMessageView) -> PendingDataEntryView {
    PendingDataEntryView {
        device_id: message.device_id,
        data_type: Transport::Socket,
        data_content: socket_payload(message.field, message.value),
        timestamp: message.timestamp,
    }
}

/// The event that a socket message becomes.
pub open spec fn socket_event(message: WebSocketMessageView) -> UnifiedRealtimeMessageView {
    UnifiedRealtimeMessageView {
        device_id: message.device_id,
        message_type: Transport::Socket,
        data: socket_payload(message.field, message.value),
        notification: socket_notification(message.field, message.value),
        timestamp: message.timestamp,
    }
}

/// The write that a broker payload asks for.
pub open spec fn broker_entry(
    device_id: i32,
    payload: JsonDocumentView,
    timestamp: i64,
) -> PendingDataEntryView {
    PendingDataEntryView {
        device_id,
        data_type: Transport::Broker,
        data_content: payload,
        timestamp,
    }
}

/// The event that a broker payload becomes.
pub open spec fn broker_event(
    device_id: i32,
    payload: JsonDocumentView,
    timestamp: i64,
) -> UnifiedRealtimeMessageView {
    UnifiedRealtimeMessageView {
        device_id,
        message_type: Transport::Broker,
        data: payload,
        notification: broker_notification(payload.rendered),
        timestamp,
    }
}

/// The snapshot that stored events rebuild: each is merged in turn, in the
/// order in which the store hands them over.
pub open spec fn rebuilt(records: Seq<StoredRecordView>) -> Map<
    i32,
    Map<Seq<char>, JsonValueView>,
>
    decreases records.len(),
{
    if records.len() == 0 {
        Map::empty()
    } else {
        snapshot_with(
            rebuilt(records.drop_last()),
            records.last().device_id,
            records.last().data_content,
        )
    }
}

/// The records that a rebuild reads: the first `INITIAL_STATE_LIMIT` of them.
pub open spec fn rebuild_window(records: Seq<StoredRecordView>) -> Seq<StoredRecordView> {
    if records.len() <= INITIAL_STATE_LIMIT {
        records
    } else {
        records.take(INITIAL_STATE_LIMIT as int)
    }
}

/// What the pipeline holds.
pub struct PipelineView {
    /// The latest state of each device that has one.
    pub snapshot: Map<i32, Map<Seq<char>, JsonValueView>>,
    /// The writes that wait for the next flush, oldest first.
    pub pending: Seq<PendingDataEntryView>,
    /// When each device was last stored at once.
    pub last_saves: Map<i32, u64>,
}

/// Whether an event of the device that comes at `now` is stored at once.
pub open spec fn due_now(before: PipelineView, device_id: i32, now: u64) -> bool {
    save_is_due(value_at(before.last_saves, device_id), now)
}

/// The pipeline after the decision on when to store a device's next event:
/// where the event is stored at once, `now` is noted for the device.
pub open spec fn scheduled(before: PipelineView, device_id: i32, now: u64) -> PipelineView {
    PipelineView {
        last_saves: if due_now(before, device_id, now) {
            before.last_saves.insert(device_id, now)
        } else {
            before.last_saves
        },
        ..before
    }
}

/// The pipeline after an event that asks for the write `entry` and comes at
/// `now`: the write is scheduled, and the payload is merged into the state
/// of its device.
pub open spec fn ingested(before: PipelineView, entry: PendingDataEntryView, now: u64) -> PipelineView {
    PipelineView {
        snapshot: snapshot_with(before.snapshot, entry.device_id, entry.data_content),
        pending: if due_now(before, entry.device_id, now) {
            before.pending
        } else {
            before.pending.push(entry)
        },
        last_saves: scheduled(before, entry.device_id, now).last_saves,
    }
}

/// The write that is owed to the sink at once for such an event, if any.
pub open spec fn owed_at_once(
    before: PipelineView,
    entry: PendingDataEntryView,
    now: u64,
) -> Option<PendingDataEntryView> {
    if due_now(before, entry.device_id, now) {
        Some(entry)
    } else {
        None
    }
}

/// The ingest pipeline's state: the latest state of each device, the writes
/// that wait for the next flush, and when each device was last stored at once.
pub struct RealtimeDataService {
    device_states: HashMap<i32, JsonObject>,
    pending_data: Vec<PendingDataEntry>,
    last_save_time: HashMap<i32, u64>,
}

impl View for RealtimeDataService {
    type V = PipelineView;

    closed spec fn view(&self) -> PipelineView {
        PipelineView {
            snapshot: snapshot_of(self.device_states@),
            pending: self.pending_data.deep_view(),
            last_saves: self.last_save_time@,
        }
    }
}

impl RealtimeDataService {
    /// Every device's state is a well-formed object.
    pub closed spec fn wf(&self) -> bool {
        forall|d: i32| #[trigger]
            self.device_states@.contains_key(d) ==> self.device_states@[d].wf()
    }

    /// The latest state of each device that has one.
    pub open spec fn snapshot(&self) -> Map<i32, Map<Seq<char>, JsonValueView>> {
        self@.snapshot
    }

    /// The writes that wait for the next flush, oldest first.
    pub open spec fn pending(&self) -> Seq<PendingDataEntryView> {
        self@.pending
    }

    /// When each device was last stored at once.
    pub open spec fn last_saves(&self) -> Map<i32, u64> {
        self@.last_saves
    }

    /// A pipeline that has seen nothing.
    pub fn new() -> (r: Self)
        ensures
            r.wf(),
            r@ == (PipelineView {
                snapshot: Map::empty(),
                pending: Seq::empty(),
                last_saves: Map::empty(),
            }),
    {
        let r = RealtimeDataService {
            device_states: HashMap::new(),
            pending_data: Vec::new(),
            last_save_time: HashMap::new(),
        };
        assert(r@.snapshot =~= Map::<i32, Map<Seq<char>, JsonValueView>>::empty());
        assert(r@.pending =~= Seq::<PendingDataEntryView>::empty());
        r
    }

    /// Decides whether the next event of `device_id` is stored at once, and
    /// if so notes `now` as the time of its last such write.
    pub fn should_save_immediately(&mut self, device_id: i32, now: u64) -> (due: bool)
        ensures
            due == due_now(old(self)@, device_id, now),
            final(self)@ == scheduled(old(self)@, device_id, now),
            final(self).wf() == old(self).wf(),
    {
        let due: bool = match self.last_save_time.get(&device_id) {
            Some(at) => now >= *at && now - *at >= IMMEDIATE_SAVE_INTERVAL_MS,
            None => true,
        };
        if due {
            self.last_save_time.insert(device_id, now);
        }
        due
    }

    /// The common path of every event: schedule its write, merge it into the
    /// snapshot, and hand back the event to publish.
    pub fn ingest(
        &mut self,
        device_id: i32,
        transport: Transport,
        data: JsonDocument,
        notification: String,
        timestamp: i64,
        now: u64,
    ) -> (r: Processed)
        requires
            old(self).wf(),
        ensures
            final(self).wf(),
            final(self)@ == ingested(
                old(self)@,
                PendingDataEntryView { device_id, data_type: transport, data_content: data@, timestamp },
                now,
            ),
            r.save_now.deep_view() == owed_at_once(
                old(self)@,
                PendingDataEntryView { device_id, data_type: transport, data_content: data@, timestamp },
                now,
            ),
            r.event@ == (UnifiedRealtimeMessageView {
                device_id,
                message_type: transport,
                data: data@,
                notification: notification@,
                timestamp,
            }),
    {
        let due: bool = self.should_save_immediately(device_id, now);
        let entry = PendingDataEntry {
            device_id,
            data_type: transport,
            data_content: data.clone(),
            timestamp,
        };
        let save_now: Option<PendingDataEntry> = if due {
            Some(entry)
        } else {
            let ghost before = self.pending_data.deep_view();
            self.pending_data.push(entry);
            assert(self.pending_data.deep_view() =~= before.push(entry@));
            None
        };
        let mut object: JsonObject = match self.device_states.remove(&device_id) {
            Some(found) => found,
            None => JsonObject::new(),
        };
        match &data.members {
            Some(members) => {
                object.merge(members);
            },
            None => {},
        }
        self.device_states.insert(device_id, object);
        assert(self@.snapshot =~= snapshot_with(old(self)@.snapshot, device_id, data@));
        Processed {
            save_now,
            event: UnifiedRealtimeMessage {
                device_id,
                message_type: transport,
                data,
                notification,
                timestamp,
            },
        }
    }

    /// Takes in one field and value from a device's socket.
    pub fn process_websocket_message(&mut self, ws_msg: WebSocketMessage, now: u64) -> (r:
        Processed)
        requires
            old(self).wf(),
        ensures
            final(self).wf(),
            final(self)@ == ingested(old(self)@, socket_entry(ws_msg@), now),
            r.save_now.deep_view() == owed_at_once(old(self)@, socket_entry(ws_msg@), now),
            r.event@ == socket_event(ws_msg@),
    {
        let notification: String = ws_msg.field.clone().concat(":").concat(ws_msg.value.as_str());
        let value: String = strip_control_text(ws_msg.value.as_str());
        let pairs: Vec<(String, String)> = vec![(ws_msg.field, value)];
        assert(pairs.deep_view() =~= seq![(ws_msg.field@, strip_control(ws_msg.value@))]);
        let data: JsonDocument = text_document(pairs);
        self.ingest(
            ws_msg.device_id,
            Transport::Socket,
            data,
            notification,
            ws_msg.timestamp,
            now,
        )
    }

    /// Takes in one payload that a device published to its broker.
    pub fn process_mqtt_message(
        &mut self,
        device_id: i32,
        payload: JsonDocument,
        timestamp: i64,
        now: u64,
    ) -> (r: Processed)
        requires
            old(self).wf(),
        ensures
            final(self).wf(),
            final(self)@ == ingested(old(self)@, broker_entry(device_id, payload@, timestamp), now),
            r.save_now.deep_view() == owed_at_once(
                old(self)@,
                broker_entry(device_id, payload@, timestamp),
                now,
            ),
            r.event@ == broker_event(device_id, payload@, timestamp),
    {
        let notification: String = "broker:".to_owned().concat(payload.rendered.as_str());
        self.ingest(device_id, Transport::Broker, payload, notification, timestamp, now)
    }

    /// The latest state of a device, if it has one.
    pub fn get_device_state(&self, device_id: i32) -> (r: Option<JsonObject>)
        requires
            self.wf(),
        ensures
            r is Some == self@.snapshot.contains_key(device_id),
            r matches Some(object) ==> object.wf() && object@ == self@.snapshot[device_id],
    {
        match self.device_states.get(&device_id) {
            Some(object) => Some(object.clone()),
            None => None,
        }
    }

    /// The latest state of every device.
    pub fn get_all_device_states(&self) -> (r: HashMap<i32, JsonObject>)
        requires
            self.wf(),
        ensures
            snapshot_of(r@) == self@.snapshot,
            forall|d: i32| #[trigger] r@.contains_key(d) ==> r@[d].wf(),
    {
        self.device_states.clone()
    }

    /// Hands out every pending write, oldest first, and leaves none behind.
    pub fn take_pending(&mut self) -> (batch: Vec<PendingDataEntry>)
        ensures
            batch.deep_view() == old(self)@.pending,
            final(self)@ == (PipelineView { pending: Seq::empty(), ..old(self)@ }),
            final(self).wf() == old(self).wf(),
    {
        let mut batch: Vec<PendingDataEntry> = Vec::new();
        std::mem::swap(&mut batch, &mut self.pending_data);
        assert(self.pending_data.deep_view() =~= Seq::<PendingDataEntryView>::empty());
        batch
    }

    /// Starts a flush: the pending writes leave the buffer, all at once,
    /// and become the batch of a run.
    pub fn flush_pending_data(&mut self) -> (run: FlushRun)
        ensures
            run.wf(),
            run@ == (FlushRunView { entries: old(self)@.pending, attempted: 0, failures: 0 }),
            final(self)@ == (PipelineView { pending: Seq::empty(), ..old(self)@ }),
            final(self).wf() == old(self).wf(),
    {
        FlushRun::new(self.take_pending())
    }

    /// The number of writes that wait for the next flush.
    pub fn pending_count(&self) -> (n: usize)
        ensures
            n == self@.pending.len(),
    {
        self.pending_data.len()
    }

    /// Replaces the snapshot by the one that the stored events rebuild.
    pub fn load_device_states(&mut self, records: &Vec<StoredRecord>)
        ensures
            final(self).wf(),
            final(self)@ == (PipelineView {
                snapshot: rebuilt(rebuild_window(records.deep_view())),
                ..old(self)@
            }),
    {
        let count: usize = if records.len() <= INITIAL_STATE_LIMIT {
            records.len()
        } else {
            INITIAL_STATE_LIMIT
        };
        let mut states: HashMap<i32, JsonObject> = HashMap::new();
        let mut i: usize = 0;
        while i < count
            invariant
                i <= count <= records.len(),
                forall|d: i32| #[trigger] states@.contains_key(d) ==> states@[d].wf(),
                snapshot_of(states@) == rebuilt(records.deep_view().take(i as int)),
            decreases count - i,
        {
            let ghost seen = records.deep_view().take(i as int);
            let ghost next = records.deep_view().take(i as int + 1);
            assert(next.drop_last() == seen);
            let device_id: i32 = records[i].device_id;
            let mut object: JsonObject = match states.remove(&device_id) {
                Some(found) => found,
                None => JsonObject::new(),
            };
            match &records[i].data_content.members {
                Some(members) => {
                    object.merge(members);
                },
                None => {},
            }
            states.insert(device_id, object);
            i += 1;
        }
        assert(records.deep_view().take(count as int) == rebuild_window(records.deep_view()));
        self.device_states = states;
    }

    /// Parses a device frame that was read at `timestamp`. A frame that
    /// holds no colon is no message.
    pub fn parse_websocket_message(device_id: i32, message: &str, timestamp: i64) -> (r: Option<
        WebSocketMessage,
    >)
        ensures
            r.deep_view() == frame_message(device_id, message@, timestamp),
    {
        match parse_fields(message) {
            Some(parts) => Some(
                WebSocketMessage { device_id, field: parts.0, value: parts.1, timestamp },
            ),
            None => None,
        }
    }

    /// Parses a device frame and takes the message in. A frame that is no
    /// message produces nothing and changes nothing.
    pub fn process_device_frame(
        &mut self,
        device_id: i32,
        message: &str,
        timestamp: i64,
        now: u64,
    ) -> (r: Option<Processed>)
        requires
            old(self).wf(),
        ensures
            final(self).wf(),
            r is Some == frame_fields(message@) is Some,
            frame_fields(message@) is None ==> final(self)@ == old(self)@,
            frame_message(device_id, message@, timestamp) matches Some(parsed) ==> {
                &&& final(self)@ == ingested(old(self)@, socket_entry(parsed), now)
                &&& r->0.save_now.deep_view() == owed_at_once(
                    old(self)@,
                    socket_entry(parsed),
                    now,
                )
                &&& r->0.event@ == socket_event(parsed)
            },
    {
        match RealtimeDataService::parse_websocket_message(device_id, message, timestamp) {
            Some(parsed) => Some(self.process_websocket_message(parsed, now)),
            None => None,
        }
    }
}

/// One flush: the batch that was taken out, and how far the sink has come.
#[derive(Debug)]
pub struct FlushRun {
    batch: Vec<PendingDataEntry>,
    next: usize,
    failed: usize,
}

/// What a `FlushRun` stands for.
pub struct FlushRunView {
    pub entries: Seq<PendingDataEntryView>,
    pub attempted: nat,
    pub failures: nat,
}

/// The run after the sink has answered for its current entry. A failure is
/// counted and the run moves on like after a success.
pub open spec fn flush_step(run: FlushRunView, stored: bool) -> FlushRunView {
    FlushRunView {
        entries: run.entries,
        attempted: run.attempted + 1,
        failures: if stored {
            run.failures
        } else {
            run.failures + 1
        },
    }
}

/// The run after the sink has answered `outcomes`, one entry after the other.
pub open spec fn flush_steps(run: FlushRunView, outcomes: Seq<bool>) -> FlushRunView
    decreases outcomes.len(),
{
    if outcomes.len() == 0 {
        run
    } else {
        flush_step(flush_steps(run, outcomes.drop_last()), outcomes.last())
    }
}

/// The entry that the run asks the sink to store next.
pub open spec fn flush_current(run: FlushRunView) -> Option<PendingDataEntryView> {
    if run.attempted < run.entries.len() {
        Some(run.entries[run.attempted as int])
    } else {
        None
    }
}

/// The number of `false` in `outcomes`.
pub open spec fn count_failures(outcomes: Seq<bool>) -> nat
    decreases outcomes.len(),
{
    if outcomes.len() == 0 {
        0
    } else {
        count_failures(outcomes.drop_last()) + (if outcomes.last() {
            0nat
        } else {
            1nat
        })
    }
}

impl View for FlushRun {
    type V = FlushRunView;

    closed spec fn view(&self) -> FlushRunView {
        FlushRunView {
            entries: self.batch.deep_view(),
            attempted: self.next as nat,
            failures: self.failed as nat,
        }
    }
}

impl FlushRun {
    /// The run has attempted no more entries than it has, and failed no
    /// more than it attempted.
    pub open spec fn wf(&self) -> bool {
        self@.failures <= self@.attempted <= self@.entries.len()
    }

    /// Starts a flush of `batch`.
    pub fn new(batch: Vec<PendingDataEntry>) -> (run: Self)
        ensures
            run.wf(),
            run@ == (FlushRunView { entries: batch.deep_view(), attempted: 0, failures: 0 }),
    {
        FlushRun { batch, next: 0, failed: 0 }
    }

    /// The entry to store next; none once every entry has been attempted.
    pub fn current(&self) -> (entry: Option<&PendingDataEntry>)
        requires
            self.wf(),
        ensures
            entry.deep_view() == flush_current(self@),
    {
        if self.next < self.batch.len() {
            Some(&self.batch[self.next])
        } else {
            None
        }
    }

    /// Notes the sink's answer for the current entry and moves to the next.
    pub fn record(&mut self, stored: bool)
        requires
            old(self).wf(),
            flush_current(old(self)@) is Some,
        ensures
            final(self).wf(),
            final(self)@ == flush_step(old(self)@, stored),
    {
        assert(self.batch.deep_view().len() == self.batch.len());
        if !stored {
            self.failed = self.failed + 1;
        }
        self.next = self.next + 1;
    }

    /// Whether every entry has been attempted.
    pub fn is_finished(&self) -> (done: bool)
        requires
            self.wf(),
        ensures
            done == (flush_current(self@) is None),
    {
        self.next >= self.batch.len()
    }

    /// The number of entries that the sink has refused so far.
    pub fn failures(&self) -> (n: usize)
        ensures
            n == self@.failures,
    {
        self.failed
    }

    /// The number of entries that have been attempted so far.
    pub fn attempted(&self) -> (n: usize)
        ensures
            n == self@.attempted,
    {
        self.next
    }
}

/// A flush attempts every entry of its batch, whatever the sink answers:
/// after as many answers as there are entries, each entry was the current
/// one once, in order, and the failures are exactly the refusals.
pub proof fn lemma_flush_attempts_every_entry(
    entries: Seq<PendingDataEntryView>,
    outcomes: Seq<bool>,
)
    requires
        outcomes.len() <= entries.len(),
    ensures
        flush_steps(
            FlushRunView { entries, attempted: 0, failures: 0 },
            outcomes,
        ).attempted == outcomes.len(),
        flush_steps(FlushRunView { entries, attempted: 0, failures: 0 }, outcomes).entries
            == entries,
        flush_steps(FlushRunView { entries, attempted: 0, failures: 0 }, outcomes).failures
            == count_failures(outcomes),
        flush_current(flush_steps(FlushRunView { entries, attempted: 0, failures: 0 }, outcomes))
            == (if outcomes.len() < entries.len() {
            Some(entries[outcomes.len() as int])
        } else {
            None
        }),
    decreases outcomes.len(),
{
    if outcomes.len() > 0 {
        lemma_flush_attempts_every_entry(entries, outcomes.drop_last());
    }
}

/// Taking in the same payload twice leaves the snapshot as taking it in once.
pub proof fn lemma_merge_idempotent(
    snapshot: Map<i32, Map<Seq<char>, JsonValueView>>,
    device_id: i32,
    payload: JsonDocumentView,
)
    ensures
        snapshot_with(snapshot_with(snapshot, device_id, payload), device_id, payload)
            == snapshot_with(snapshot, device_id, payload),
{
    let once = snapshot_with(snapshot, device_id, payload);
    let first = merged_object(value_at(snapshot, device_id), payload);
    let second = merged_object(value_at(once, device_id), payload);
    assert(second =~= first);
    assert(snapshot_with(once, device_id, payload) =~= once);
}

/// Taking in the same event twice leaves the snapshot as taking it in once,
/// whenever the two come.
pub proof fn lemma_ingest_twice(
    before: PipelineView,
    entry: PendingDataEntryView,
    first: u64,
    second: u64,
)
    ensures
        ingested(ingested(before, entry, first), entry, second).snapshot == ingested(
            before,
            entry,
            first,
        ).snapshot,
{
    lemma_merge_idempotent(before.snapshot, entry.device_id, entry.data_content);
}

/// After an event that was stored at once at `now`, the device's next
/// events wait for the flush until a full interval has passed; the events
/// of other devices are decided as before.
pub proof fn lemma_cooldown(before: PipelineView, device_id: i32, now: u64, later: u64, other: i32)
    requires
        due_now(before, device_id, now),
        other != device_id,
    ensures
        due_now(scheduled(before, device_id, now), device_id, later) <==> later - now
            >= IMMEDIATE_SAVE_INTERVAL_MS,
        due_now(scheduled(before, device_id, now), other, later) == due_now(before, other, later),
{
}

/// A payload changes the state of its own device only.
pub proof fn lemma_merge_is_local(
    snapshot: Map<i32, Map<Seq<char>, JsonValueView>>,
    device_id: i32,
    payload: JsonDocumentView,
    other: i32,
)
    requires
        other != device_id,
    ensures
        value_at(snapshot_with(snapshot, device_id, payload), other) == value_at(snapshot, other),
{
}

/// Where `s` holds `c` at `at` and nowhere between `from` and `at`, the
/// search from `from` ends at `at`.
pub proof fn lemma_find_is(s: Seq<char>, c: char, from: int, at: int)
    requires
        0 <= from <= at <= s.len(),
        forall|k: int| from <= k < at ==> s[k] != c,
        at < s.len() ==> s[at] == c,
    ensures
        find_from(s, c, from) == at,
    decreases at - from,
{
    if from < at {
        lemma_find_is(s, c, from + 1, at);
    }
}

/// A frame of field and value, neither with a colon, holds exactly these
/// two, trimmed; and a frame of three parts holds the same as the frame of
/// its last two: the first part is dropped.
pub proof fn lemma_frame_fields(prefix: Seq<char>, field: Seq<char>, value: Seq<char>)
    requires
        !prefix.contains(':'),
        !field.contains(':'),
        !value.contains(':'),
    ensures
        frame_fields(field + seq![':'] + value) == Some((trimmed(field), trimmed(value))),
        frame_fields(prefix + seq![':'] + field + seq![':'] + value) == frame_fields(
            field + seq![':'] + value,
        ),
{
    let two = field + seq![':'] + value;
    assert forall|k: int| 0 <= k < field.len() implies two[k] != ':' by {
        assert(two[k] == field[k]);
        assert(field.contains(field[k]));
    }
    lemma_find_is(two, ':', 0, field.len() as int);
    assert forall|k: int| field.len() + 1 <= k < two.len() implies two[k] != ':' by {
        assert(two[k] == value[k - field.len() - 1]);
        assert(value.contains(value[k - field.len() - 1]));
    }
    lemma_find_is(two, ':', field.len() as int + 1, two.len() as int);
    assert(two.subrange(0, field.len() as int) =~= field);
    assert(two.subrange(field.len() as int + 1, two.len() as int) =~= value);

    let three = prefix + seq![':'] + field + seq![':'] + value;
    let p = prefix.len() as int;
    let q = p + 1 + field.len();
    assert forall|k: int| 0 <= k < p implies three[k] != ':' by {
        assert(three[k] == prefix[k]);
        assert(prefix.contains(prefix[k]));
    }
    lemma_find_is(three, ':', 0, p);
    assert forall|k: int| p + 1 <= k < q implies three[k] != ':' by {
        assert(three[k] == field[k - p - 1]);
        assert(field.contains(field[k - p - 1]));
    }
    assert(three[q] == ':');
    lemma_find_is(three, ':', p + 1, q);
    assert(three.subrange(p + 1, q) =~= field);
    assert(three.subrange(q + 1, three.len() as int) =~= value);
}

/// A frame without a colon is no message.
pub proof fn lemma_frame_without_colon(s: Seq<char>)
    requires
        !s.contains(':'),
    ensures
        frame_fields(s) is None,
{
    assert forall|k: int| 0 <= k < s.len() implies s[k] != ':' by {
        assert(s.contains(s[k]));
    }
    lemma_find_is(s, ':', 0, s.len() as int);
}

/// A frame is a message exactly when it holds a colon.
pub proof fn lemma_frame_needs_colon(s: Seq<char>)
    ensures
        frame_fields(s) is Some <==> s.contains(':'),
{
    lemma_find_from(s, ':', 0);
    if s.contains(':') {
        let k = choose|k: int| 0 <= k < s.len() && s[k] == ':';
        assert(find_from(s, ':', 0) <= k);
    } else {
        lemma_frame_without_colon(s);
    }
}

} // verus!
