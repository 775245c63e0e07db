use uav_realtime::broadcast::{
    classify_client_message, request_from, BroadcastService, ClientConnection, ClientRequest,
    Delivery,
};
use uav_realtime::json::{JsonDocument, JsonValue};
use uav_realtime::realtime_data::{Transport, UnifiedRealtimeMessage};

fn ids(list: &[&str]) -> Vec<String> {
    list.iter().map(|s| s.to_string()).collect()
}

fn event(device_id: i32, notification: &str) -> UnifiedRealtimeMessage {
    UnifiedRealtimeMessage {
        device_id,
        message_type: Transport::Socket,
        data: JsonDocument { rendered: "{}".to_string(), members: Some(Vec::new()) },
        notification: notification.to_string(),
        timestamp: 0,
    }
}

fn hub() -> BroadcastService {
    let mut hub = BroadcastService::new();
    hub.add_client("all".to_string(), None);
    hub.add_client("seven".to_string(), Some(7));
    hub.add_client("nine".to_string(), Some(9));
    hub.add_client("seven-too".to_string(), Some(7));
    hub
}

#[test]
fn a_viewer_without_a_filter_gets_every_event() {
    let hub = hub();
    for device_id in [-1, 0, 7, 8, 9, i32::MAX] {
        assert!(hub.recipients(device_id).contains(&"all".to_string()));
    }
}

#[test]
fn a_viewer_with_a_filter_gets_its_device_only() {
    let hub = hub();
    assert_eq!(hub.recipients(7), ids(&["all", "seven", "seven-too"]));
    assert_eq!(hub.recipients(9), ids(&["all", "nine"]));
    assert_eq!(hub.recipients(8), ids(&["all"]));
}

#[test]
fn the_table_lists_its_viewers_in_order() {
    let mut hub = BroadcastService::new();
    hub.add_client("b".to_string(), Some(2));
    hub.add_client("a".to_string(), None);
    assert_eq!(
        hub.clients(),
        vec![
            ClientConnection { client_id: "b".to_string(), device_id: Some(2) },
            ClientConnection { client_id: "a".to_string(), device_id: None },
        ]
    );
}

#[test]
fn counts_follow_the_table() {
    let mut hub = hub();
    assert_eq!(hub.get_client_count(), 4);
    assert_eq!(hub.get_device_client_count(7), 3);
    assert_eq!(hub.get_device_client_count(9), 2);
    assert_eq!(hub.get_device_client_count(1), 1);
    assert!(hub.remove_client(&"all".to_string()));
    assert!(!hub.remove_client(&"all".to_string()));
    assert_eq!(hub.get_client_count(), 3);
    assert_eq!(hub.get_device_client_count(1), 0);
    assert_eq!(BroadcastService::new().get_client_count(), 0);
}

#[test]
fn a_viewer_that_comes_again_replaces_itself() {
    let mut hub = hub();
    hub.add_client("seven".to_string(), Some(9));
    assert_eq!(hub.get_client_count(), 4);
    assert_eq!(hub.recipients(7), ids(&["all", "seven-too"]));
    assert_eq!(hub.recipients(9), ids(&["all", "nine", "seven"]));
}

#[test]
fn an_event_fans_out_to_its_viewers() {
    let hub = hub();
    assert_eq!(
        hub.fan_out(&event(9, "battery:88")),
        vec![
            Delivery { client_id: "all".to_string(), text: "battery:88".to_string() },
            Delivery { client_id: "nine".to_string(), text: "battery:88".to_string() },
        ]
    );
    assert_eq!(BroadcastService::new().fan_out(&event(9, "x")), Vec::new());
}

#[test]
fn the_count_follows_registrations_and_failures() {
    let mut hub = hub();
    let n = hub.get_client_count();
    hub.add_client("seven".to_string(), None);
    assert_eq!(hub.get_client_count(), n);
    hub.add_client("new".to_string(), Some(1));
    assert_eq!(hub.get_client_count(), n + 1);
    hub.delivery_failed(&"new".to_string());
    assert_eq!(hub.get_client_count(), n);
    hub.delivery_failed(&"new".to_string());
    assert_eq!(hub.get_client_count(), n);
}

#[test]
fn no_viewer_is_a_recipient_twice() {
    let mut hub = hub();
    hub.add_client("all".to_string(), Some(7));
    hub.add_client("all".to_string(), None);
    let ids = hub.recipients(7);
    let mut unique = ids.clone();
    unique.sort();
    unique.dedup();
    assert_eq!(unique.len(), ids.len());
    assert_eq!(ids.iter().filter(|id| id.as_str() == "all").count(), 1);
}

#[test]
fn a_failed_delivery_drops_that_viewer_only() {
    let mut hub = hub();
    hub.delivery_failed(&"seven".to_string());
    assert_eq!(hub.recipients(7), ids(&["all", "seven-too"]));
    hub.delivery_failed(&"unknown".to_string());
    assert_eq!(hub.get_client_count(), 3);
}

#[test]
fn viewer_requests_are_told_apart() {
    assert_eq!(classify_client_message("{\"type\":\"ping\"}"), ClientRequest::Ping);
    assert_eq!(
        classify_client_message("{\"type\":\"subscribe_device\",\"device_id\":12}"),
        ClientRequest::SubscribeDevice { device_id: Some(JsonValue::Raw("12".to_string())) }
    );
    assert_eq!(
        classify_client_message("{\"type\":\"subscribe_device\"}"),
        ClientRequest::SubscribeDevice { device_id: None }
    );
    assert_eq!(
        classify_client_message("{\"type\":\"dance\"}"),
        ClientRequest::Unknown { message_type: "dance".to_string() }
    );
}

#[test]
fn other_texts_are_no_requests() {
    assert_eq!(classify_client_message("ping"), ClientRequest::NotARequest);
    assert_eq!(classify_client_message("{\"type\":7}"), ClientRequest::NotARequest);
    assert_eq!(classify_client_message("{\"kind\":\"ping\"}"), ClientRequest::NotARequest);
    assert_eq!(classify_client_message("[\"ping\"]"), ClientRequest::NotARequest);
    assert_eq!(classify_client_message("\"ping\""), ClientRequest::NotARequest);
    assert_eq!(request_from(None), ClientRequest::NotARequest);
    assert_eq!(
        request_from(Some(JsonDocument { rendered: "1".to_string(), members: None })),
        ClientRequest::NotARequest
    );
}
