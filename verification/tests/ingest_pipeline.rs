use uav_realtime::json::{JsonDocument, JsonValue, Member};
use uav_realtime::realtime_data::{
    parse_fields, FlushRun, PendingDataEntry, RealtimeDataService, StoredRecord, Transport,
    UnifiedRealtimeMessage, WebSocketMessage, FLUSH_INTERVAL_MS, IMMEDIATE_SAVE_INTERVAL_MS,
    INITIAL_STATE_LIMIT,
};

fn member(key: &str, value: JsonValue) -> Member {
    Member { key: key.to_string(), value }
}

fn text(s: &str) -> JsonValue {
    JsonValue::Text(s.to_string())
}

fn raw(s: &str) -> JsonValue {
    JsonValue::Raw(s.to_string())
}

fn socket_doc(field: &str, value: &str) -> JsonDocument {
    JsonDocument {
        rendered: format!("{{\"{}\":\"{}\"}}", field, value),
        members: Some(vec![member(field, text(value))]),
    }
}

fn broker_doc(rendered: &str, members: Vec<Member>) -> JsonDocument {
    JsonDocument { rendered: rendered.to_string(), members: Some(members) }
}

fn message(device_id: i32, field: &str, value: &str, timestamp: i64) -> WebSocketMessage {
    WebSocketMessage { device_id, field: field.to_string(), value: value.to_string(), timestamp }
}

fn pair(a: &str, b: &str) -> Option<(String, String)> {
    Some((a.to_string(), b.to_string()))
}

#[test]
fn the_intervals_are_thirty_and_five_seconds() {
    assert_eq!(IMMEDIATE_SAVE_INTERVAL_MS, 30_000);
    assert_eq!(FLUSH_INTERVAL_MS, 5_000);
    assert_eq!(INITIAL_STATE_LIMIT, 1000);
}

#[test]
fn transports_have_their_names() {
    assert_eq!(Transport::Socket.name(), "socket");
    assert_eq!(Transport::Broker.name(), "broker");
}

#[test]
fn a_frame_of_two_parts_is_field_and_value() {
    assert_eq!(parse_fields("temp:23.5"), pair("temp", "23.5"));
    assert_eq!(parse_fields(" temp : 23.5 \n"), pair("temp", "23.5"));
    assert_eq!(parse_fields(":"), pair("", ""));
    assert_eq!(parse_fields("a:"), pair("a", ""));
    assert_eq!(parse_fields(":b"), pair("", "b"));
}

#[test]
fn a_frame_of_three_parts_drops_the_first() {
    assert_eq!(parse_fields("device42:temp:23.5"), pair("temp", "23.5"));
    assert_eq!(parse_fields("device42:temp:23.5"), parse_fields("temp:23.5"));
    assert_eq!(parse_fields("7: battery : 88 "), pair("battery", "88"));
    assert_eq!(parse_fields("::"), pair("", ""));
}

#[test]
fn a_frame_is_split_at_its_first_two_colons_only() {
    assert_eq!(parse_fields("a:b:c:d"), pair("b", "c:d"));
    assert_eq!(parse_fields("id:time:12:30:05"), pair("time", "12:30:05"));
}

#[test]
fn a_frame_without_a_colon_is_no_message() {
    assert_eq!(parse_fields(""), None);
    assert_eq!(parse_fields("temp"), None);
    assert_eq!(parse_fields("temp 23.5"), None);
    assert_eq!(RealtimeDataService::parse_websocket_message(1, "nothing", 5), None);
}

#[test]
fn a_parsed_frame_carries_device_and_time() {
    assert_eq!(
        RealtimeDataService::parse_websocket_message(9, "x:9:alt: 120", 1234),
        Some(message(9, "9", "alt: 120", 1234))
    );
    assert_eq!(
        RealtimeDataService::parse_websocket_message(9, "alt: 120", 1234),
        Some(message(9, "alt", "120", 1234))
    );
}

#[test]
fn the_first_event_of_a_device_is_stored_at_once() {
    let mut service = RealtimeDataService::new();
    assert!(service.should_save_immediately(1, 100));
    assert!(!service.should_save_immediately(1, 100));
    assert!(service.should_save_immediately(2, 100));
}

#[test]
fn an_event_is_stored_at_once_after_the_full_interval() {
    let mut service = RealtimeDataService::new();
    assert!(service.should_save_immediately(1, 1_000));
    assert!(!service.should_save_immediately(1, 30_999));
    assert!(service.should_save_immediately(1, 31_000));
    // The interval counts from the last write at once, not from the last event.
    assert!(!service.should_save_immediately(1, 60_999));
    assert!(service.should_save_immediately(1, 61_000));
}

#[test]
fn a_clock_that_runs_backwards_defers() {
    let mut service = RealtimeDataService::new();
    assert!(service.should_save_immediately(1, 50_000));
    assert!(!service.should_save_immediately(1, 10));
    assert!(!service.should_save_immediately(1, 79_999));
    assert!(service.should_save_immediately(1, 80_000));
}

#[test]
fn a_socket_message_becomes_an_event_with_an_object_payload() {
    let mut service = RealtimeDataService::new();
    let processed = service.process_websocket_message(message(42, "temp", "23.5", 7), 0);
    assert_eq!(
        processed.event,
        UnifiedRealtimeMessage {
            device_id: 42,
            message_type: Transport::Socket,
            data: socket_doc("temp", "23.5"),
            notification: "temp:23.5".to_string(),
            timestamp: 7,
        }
    );
    assert_eq!(
        processed.save_now,
        Some(PendingDataEntry {
            device_id: 42,
            data_type: Transport::Socket,
            data_content: socket_doc("temp", "23.5"),
            timestamp: 7,
        })
    );
    assert_eq!(service.pending_count(), 0);
    let state = service.get_device_state(42).unwrap();
    assert_eq!(state.members(), &vec![member("temp", text("23.5"))]);
}

#[test]
fn a_socket_value_loses_its_raw_control_characters_only() {
    let mut service = RealtimeDataService::new();
    let processed = service.process_websocket_message(message(1, "note", "a\u{1}b\\u0000c\td", 0), 0);
    assert_eq!(
        processed.event.data.members,
        Some(vec![member("note", text("ab\\u0000c\td"))])
    );
    assert_eq!(processed.event.data.rendered, "{\"note\":\"ab\\\\u0000c\\td\"}");
    assert_eq!(processed.event.notification, "note:a\u{1}b\\u0000c\td");
    let state = service.get_device_state(1).unwrap();
    assert_eq!(state.get(&"note".to_string()), Some(&text("ab\\u0000c\td")));
}

#[test]
fn a_written_out_escape_stays_in_a_socket_value() {
    let mut service = RealtimeDataService::new();
    service.process_websocket_message(message(1, "first", "x", 0), 0);
    let processed = service.process_websocket_message(message(1, "raw", "\\u0000", 0), 1);
    assert_eq!(processed.save_now, None);
    let batch = service.take_pending();
    assert_eq!(batch.len(), 1);
    assert_eq!(batch[0].data_content.members, Some(vec![member("raw", text("\\u0000"))]));
    let state = service.get_device_state(1).unwrap();
    assert_eq!(state.get(&"raw".to_string()), Some(&text("\\u0000")));
}

#[test]
fn later_events_wait_for_the_flush() {
    let mut service = RealtimeDataService::new();
    let first = service.process_websocket_message(message(1, "a", "1", 10), 1_000);
    assert!(first.save_now.is_some());
    let second = service.process_websocket_message(message(1, "b", "2", 11), 2_000);
    assert_eq!(second.save_now, None);
    let third = service.process_mqtt_message(
        1,
        broker_doc("{\"c\":3}", vec![member("c", raw("3"))]),
        12,
        3_000,
    );
    assert_eq!(third.save_now, None);
    assert_eq!(service.pending_count(), 2);
    let batch = service.take_pending();
    assert_eq!(
        batch,
        vec![
            PendingDataEntry {
                device_id: 1,
                data_type: Transport::Socket,
                data_content: socket_doc("b", "2"),
                timestamp: 11,
            },
            PendingDataEntry {
                device_id: 1,
                data_type: Transport::Broker,
                data_content: broker_doc("{\"c\":3}", vec![member("c", raw("3"))]),
                timestamp: 12,
            },
        ]
    );
    assert_eq!(service.pending_count(), 0);
    assert_eq!(service.take_pending(), Vec::new());
}

#[test]
fn a_broker_payload_is_published_under_its_prefix() {
    let mut service = RealtimeDataService::new();
    let doc = broker_doc("{\"lat\":1.23}", vec![member("lat", raw("1.23"))]);
    let processed = service.process_mqtt_message(9, doc.clone(), 5, 0);
    assert_eq!(
        processed.event,
        UnifiedRealtimeMessage {
            device_id: 9,
            message_type: Transport::Broker,
            data: doc,
            notification: "broker:{\"lat\":1.23}".to_string(),
            timestamp: 5,
        }
    );
}

#[test]
fn the_snapshot_merges_by_key() {
    let mut service = RealtimeDataService::new();
    service.process_websocket_message(message(1, "temp", "20", 0), 0);
    service.process_websocket_message(message(1, "alt", "100", 0), 1);
    service.process_websocket_message(message(1, "temp", "21", 0), 2);
    service.process_mqtt_message(
        1,
        broker_doc("{\"alt\":101,\"lat\":1.5}", vec![member("alt", raw("101")), member("lat", raw("1.5"))]),
        0,
        3,
    );
    service.process_websocket_message(message(2, "temp", "5", 0), 4);
    let one = service.get_device_state(1).unwrap();
    assert_eq!(one.len(), 3);
    assert_eq!(one.get(&"temp".to_string()), Some(&text("21")));
    assert_eq!(one.get(&"alt".to_string()), Some(&raw("101")));
    assert_eq!(one.get(&"lat".to_string()), Some(&raw("1.5")));
    let two = service.get_device_state(2).unwrap();
    assert_eq!(two.members(), &vec![member("temp", text("5"))]);
    assert!(service.get_device_state(3).is_none());
    let all = service.get_all_device_states();
    assert_eq!(all.len(), 2);
    assert_eq!(all[&1].members(), one.members());
    assert_eq!(all[&2].members(), two.members());
}

#[test]
fn a_payload_that_is_no_object_leaves_the_keys_alone() {
    let mut service = RealtimeDataService::new();
    service.process_websocket_message(message(1, "temp", "20", 0), 0);
    service.process_mqtt_message(1, JsonDocument { rendered: "17".to_string(), members: None }, 0, 1);
    assert_eq!(service.get_device_state(1).unwrap().members(), &vec![member("temp", text("20"))]);
    service.process_mqtt_message(4, JsonDocument { rendered: "17".to_string(), members: None }, 0, 1);
    assert_eq!(service.get_device_state(4).unwrap().len(), 0);
}

#[test]
fn the_same_event_twice_leaves_the_snapshot_as_once() {
    let mut once = RealtimeDataService::new();
    let mut twice = RealtimeDataService::new();
    for service in [&mut once, &mut twice] {
        service.process_websocket_message(message(1, "alt", "100", 0), 0);
    }
    once.process_websocket_message(message(1, "temp", "20", 5), 10);
    twice.process_websocket_message(message(1, "temp", "20", 5), 10);
    twice.process_websocket_message(message(1, "temp", "20", 5), 10);
    assert_eq!(
        once.get_device_state(1).unwrap().members(),
        twice.get_device_state(1).unwrap().members()
    );
    let doc = broker_doc("{\"a\":1,\"b\":\"x\"}", vec![member("a", raw("1")), member("b", text("x"))]);
    once.process_mqtt_message(1, doc.clone(), 0, 20);
    twice.process_mqtt_message(1, doc.clone(), 0, 20);
    twice.process_mqtt_message(1, doc, 0, 20);
    assert_eq!(
        once.get_device_state(1).unwrap().members(),
        twice.get_device_state(1).unwrap().members()
    );
}

#[test]
fn a_frame_that_is_no_message_changes_nothing() {
    let mut service = RealtimeDataService::new();
    service.process_device_frame(1, "temp:20", 0, 0);
    service.process_device_frame(1, "alt:5", 0, 1);
    let state = service.get_device_state(1).unwrap();
    assert!(service.process_device_frame(1, "no colon here", 0, 100_000).is_none());
    assert!(service.process_device_frame(2, "", 0, 100_000).is_none());
    assert_eq!(service.get_device_state(1).unwrap().members(), state.members());
    assert!(service.get_device_state(2).is_none());
    assert_eq!(service.pending_count(), 1);
    // The rejected frames did not count as writes at once either.
    assert!(service.should_save_immediately(2, 0));
    assert!(!service.should_save_immediately(1, 29_999));
}

#[test]
fn a_frame_goes_from_text_to_state() {
    let mut service = RealtimeDataService::new();
    let processed = service.process_device_frame(42, "device42:temp:23.5", 3, 0).unwrap();
    assert_eq!(processed.event.data, socket_doc("temp", "23.5"));
    assert_eq!(processed.event.notification, "temp:23.5");
    assert_eq!(processed.event.timestamp, 3);
    let same = RealtimeDataService::new().process_device_frame(42, "temp:23.5", 3, 0).unwrap();
    assert_eq!(same.event, processed.event);
}

#[test]
fn a_flush_attempts_every_entry() {
    let mut service = RealtimeDataService::new();
    service.process_websocket_message(message(1, "a", "0", 0), 0);
    for i in 1..=4 {
        service.process_websocket_message(message(1, "a", &i.to_string(), i), 1);
    }
    let mut run = service.flush_pending_data();
    assert_eq!(service.pending_count(), 0);
    let mut seen = Vec::new();
    let answers = [true, false, false, true];
    while let Some(entry) = run.current() {
        seen.push(entry.timestamp);
        let answer = answers[run.attempted()];
        run.record(answer);
    }
    assert_eq!(seen, vec![1, 2, 3, 4]);
    assert!(run.is_finished());
    assert_eq!(run.attempted(), 4);
    assert_eq!(run.failures(), 2);
}

#[test]
fn a_flush_goes_on_after_a_failure() {
    let entry = |timestamp: i64| PendingDataEntry {
        device_id: 1,
        data_type: Transport::Socket,
        data_content: socket_doc("a", "b"),
        timestamp,
    };
    let mut run = FlushRun::new(vec![entry(10), entry(20), entry(30)]);
    assert!(!run.is_finished());
    assert_eq!(run.current().map(|e| e.timestamp), Some(10));
    run.record(false);
    assert_eq!(run.current().map(|e| e.timestamp), Some(20));
    run.record(false);
    assert_eq!(run.current().map(|e| e.timestamp), Some(30));
    run.record(false);
    assert_eq!(run.current(), None);
    assert_eq!(run.failures(), 3);
}

#[test]
fn an_empty_flush_is_finished_at_once() {
    let mut service = RealtimeDataService::new();
    let run = service.flush_pending_data();
    assert!(run.is_finished());
    assert_eq!(run.current(), None);
    assert_eq!(run.attempted(), 0);
    assert_eq!(run.failures(), 0);
}

#[test]
fn stored_events_rebuild_the_snapshot() {
    let record = |device_id: i32, rendered: &str, members: Vec<Member>| StoredRecord {
        device_id,
        data_content: broker_doc(rendered, members),
    };
    let mut service = RealtimeDataService::new();
    service.process_websocket_message(message(5, "gone", "1", 0), 0);
    service.process_websocket_message(message(5, "kept", "2", 0), 1);
    service.load_device_states(&vec![
        record(1, "{\"a\":\"new\"}", vec![member("a", text("new"))]),
        record(2, "{\"b\":1}", vec![member("b", raw("1"))]),
        record(1, "{\"a\":\"old\",\"c\":2}", vec![member("a", text("old")), member("c", raw("2"))]),
        StoredRecord { device_id: 3, data_content: JsonDocument { rendered: "1".to_string(), members: None } },
    ]);
    // Each record is merged in the order given: a later one overwrites.
    let one = service.get_device_state(1).unwrap();
    assert_eq!(one.members(), &vec![member("a", text("old")), member("c", raw("2"))]);
    assert_eq!(service.get_device_state(2).unwrap().members(), &vec![member("b", raw("1"))]);
    assert_eq!(service.get_device_state(3).unwrap().len(), 0);
    assert!(service.get_device_state(5).is_none());
    // The writes that wait are not touched.
    assert_eq!(service.pending_count(), 1);
}

#[test]
fn a_rebuild_reads_a_bounded_number_of_events() {
    let mut records = Vec::new();
    for i in 0..1001 {
        records.push(StoredRecord {
            device_id: i,
            data_content: broker_doc("{\"k\":1}", vec![member("k", raw("1"))]),
        });
    }
    let mut service = RealtimeDataService::new();
    service.load_device_states(&records);
    assert_eq!(service.get_all_device_states().len(), 1000);
    assert!(service.get_device_state(999).is_some());
    assert!(service.get_device_state(1000).is_none());
}

#[test]
fn copies_of_events_and_entries_are_equal() {
    let event = UnifiedRealtimeMessage {
        device_id: 1,
        message_type: Transport::Broker,
        data: broker_doc("{}", Vec::new()),
        notification: "broker:{}".to_string(),
        timestamp: 9,
    };
    assert_eq!(event.clone(), event);
    let entry = PendingDataEntry {
        device_id: 1,
        data_type: Transport::Socket,
        data_content: socket_doc("a", "b"),
        timestamp: 9,
    };
    assert_eq!(entry.clone(), entry);
}
