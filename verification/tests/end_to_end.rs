use uav_realtime::broadcast::Delivery;
use uav_realtime::device_websocket_proxy::{DeviceFrame, FrameAction, ProxyPlan, Teardown};
use uav_realtime::directory::TransportConfig;
use uav_realtime::error::{BindError, NotConnected};
use uav_realtime::json::{JsonDocument, JsonValue, Member};
use uav_realtime::mqtt_broker::MqttBrokerService;
use uav_realtime::mqtt_service::EnableAction;
use uav_realtime::realtime_data::{PendingDataEntry, Transport};
use uav_realtime::service_manager::{ProxyRequest, ServiceManager};

fn member(key: &str, value: JsonValue) -> Member {
    Member { key: key.to_string(), value }
}

fn buffer_with(frame: &[u8]) -> [u8; 1024] {
    let mut buffer = [0u8; 1024];
    buffer[..frame.len()].copy_from_slice(frame);
    buffer
}

#[test]
fn a_socket_frame_reaches_state_viewers_and_sink() {
    let mut manager = ServiceManager::new();
    manager.add_websocket_client("viewer-7".to_string(), Some(7));
    manager.add_websocket_client("viewer-8".to_string(), Some(8));
    let plan = manager.create_device_websocket_proxy(7, 1, 8007);
    assert_eq!(
        plan,
        ProxyPlan::Open {
            teardown: Teardown { close_device: false, cancel_viewer_listener: false },
            device_port: 8007,
            proxy_port: 2340,
        }
    );
    let connection = manager.device_websocket_proxy.device_connected(7).unwrap();
    let action = manager
        .device_websocket_proxy
        .handle_device_frame(7, connection, DeviceFrame::Text("battery:88".to_string()));
    let text = match action {
        FrameAction::Process(text) => text,
        other => panic!("unexpected action {:?}", other),
    };
    let dispatch = manager.process_websocket_message(7, &text, 1_700_000_000_000, 0).unwrap();

    let state = manager.get_device_state(7).unwrap();
    assert_eq!(state.members(), &vec![member("battery", JsonValue::Text("88".to_string()))]);

    assert_eq!(
        dispatch.deliveries,
        vec![Delivery { client_id: "viewer-7".to_string(), text: "battery:88".to_string() }]
    );
    assert!(dispatch.deliveries[0].text.contains("battery:88"));

    let entry = dispatch.save_now.unwrap();
    assert_eq!(
        entry,
        PendingDataEntry {
            device_id: 7,
            data_type: Transport::Socket,
            data_content: JsonDocument {
                rendered: "{\"battery\":\"88\"}".to_string(),
                members: Some(vec![member("battery", JsonValue::Text("88".to_string()))]),
            },
            timestamp: 1_700_000_000_000,
        }
    );
    assert_eq!(entry.data_type.name(), "socket");
    assert_eq!(manager.realtime_service.pending_count(), 0);
}

#[test]
fn a_broker_publish_reaches_the_state() {
    let mut manager = ServiceManager::new();
    assert_eq!(
        manager.add_device_mqtt_config(9, 9100, true),
        EnableAction::Start { device_id: 9, port: 9100 }
    );
    assert_eq!(manager.mqtt_listener_bound(9, 9100, true), Ok(()));
    assert!(manager.is_mqtt_running(9));

    let mut broker = MqttBrokerService::new(9100);
    assert_eq!(broker.accept_client("client_1".to_string(), 0), vec![0x20, 0x02, 0x00, 0x00]);
    let payload = "{\"lat\":1.23}";
    let mut frame = vec![0x30, payload.len() as u8];
    frame.extend_from_slice(payload.as_bytes());
    let buffer = buffer_with(&frame);
    let outcome = manager.handle_broker_read(9, &"client_1".to_string(), &buffer, frame.len(), 5, 0);
    assert_eq!(outcome.ack, None);
    let dispatch = outcome.dispatch.unwrap();
    assert_eq!(dispatch.event.notification, "broker:{\"lat\":1.23}");
    assert_eq!(dispatch.event.message_type.name(), "broker");

    let state = manager.get_device_state(9).unwrap();
    let lat = state.get(&"lat".to_string());
    assert_eq!(lat, Some(&JsonValue::Raw("1.23".to_string())));
    match lat {
        Some(JsonValue::Raw(number)) => assert_eq!(number.parse::<f64>(), Ok(1.23)),
        _ => unreachable!(),
    }
}

#[test]
fn disabling_without_a_broker_succeeds_and_changes_nothing() {
    let mut manager = ServiceManager::new();
    manager.add_device_mqtt_config(1, 9001, true);
    manager.mqtt_listener_bound(1, 9001, true).unwrap();
    assert!(!manager.remove_device_mqtt_config(5));
    assert!(manager.is_mqtt_running(1));
    assert!(!manager.is_mqtt_running(5));
    assert_eq!(manager.mqtt_service.get_all_configs().len(), 1);
}

#[test]
fn a_disabled_broker_never_runs() {
    let mut manager = ServiceManager::new();
    assert_eq!(manager.add_device_mqtt_config(3, 9003, false), EnableAction::Disabled);
    assert!(!manager.is_mqtt_running(3));
}

#[test]
fn a_refused_broker_port_is_reported() {
    let mut manager = ServiceManager::new();
    manager.add_device_mqtt_config(3, 9003, true);
    assert_eq!(manager.mqtt_listener_bound(3, 9003, false), Err(BindError { port: 9003 }));
    assert!(!manager.is_mqtt_running(3));
}

#[test]
fn a_frame_that_is_no_message_reaches_nobody() {
    let mut manager = ServiceManager::new();
    manager.add_websocket_client("viewer".to_string(), None);
    assert!(manager.process_websocket_message(7, "garbage", 0, 0).is_none());
    assert!(manager.get_device_state(7).is_none());
    assert!(manager.get_all_device_states().is_empty());
    assert_eq!(manager.realtime_service.pending_count(), 0);
}

#[test]
fn a_broker_read_that_asks_for_an_ack_gets_one() {
    let mut manager = ServiceManager::new();
    let buffer = buffer_with(&[0x32, 0x02, b'4', b'2']);
    let outcome = manager.handle_broker_read(9, &"c".to_string(), &buffer, 4, 0, 0);
    assert_eq!(outcome.ack, Some(vec![0x40, 0x02, b'4', b'2']));
    let dispatch = outcome.dispatch.unwrap();
    assert_eq!(dispatch.event.data, JsonDocument { rendered: "42".to_string(), members: None });
    assert_eq!(manager.get_device_state(9).map(|s| s.len()), Some(0));
}

#[test]
fn the_status_of_an_unknown_device_is_disconnected_and_empty() {
    let manager = ServiceManager::new();
    let status = manager.get_device_status(5);
    assert_eq!(status.device_id, 5);
    assert!(!status.connected);
    assert!(!status.websocket_connected);
    assert!(!status.mqtt_running);
    assert_eq!(status.data.len(), 0);
}

#[test]
fn the_status_follows_socket_and_broker() {
    let mut manager = ServiceManager::new();
    manager.add_device_mqtt_config(5, 9005, true);
    manager.mqtt_listener_bound(5, 9005, true).unwrap();
    manager.process_websocket_message(5, "alt:10", 0, 0);
    let status = manager.get_device_status(5);
    assert!(status.connected && status.mqtt_running && !status.websocket_connected);
    assert_eq!(status.data.get(&"alt".to_string()), Some(&JsonValue::Text("10".to_string())));
    manager.remove_device_mqtt_config(5);
    manager.create_device_websocket_proxy(5, 0, 8005);
    assert!(!manager.get_device_status(5).connected);
    manager.device_websocket_proxy.device_connected(5);
    let status = manager.get_device_status(5);
    assert!(status.connected && status.websocket_connected && !status.mqtt_running);
    assert!(manager.is_device_websocket_proxy_connected(5));
    assert_eq!(manager.send_device_websocket_command(5, "go"), Ok("go".to_string()));
    assert_eq!(
        manager.disconnect_device_websocket_proxy(5),
        Teardown { close_device: true, cancel_viewer_listener: true }
    );
    assert_eq!(manager.send_device_websocket_command(5, "go"), Err(NotConnected { device_id: 5 }));
}

#[test]
fn hub_viewers_are_counted() {
    let mut manager = ServiceManager::new();
    assert_eq!(manager.get_websocket_client_count(), 0);
    manager.add_websocket_client("a".to_string(), None);
    manager.add_websocket_client("b".to_string(), Some(1));
    manager.add_websocket_client("a".to_string(), Some(2));
    assert_eq!(manager.get_websocket_client_count(), 2);
    manager.remove_websocket_client(&"a".to_string());
    manager.remove_websocket_client(&"zzz".to_string());
    assert_eq!(manager.get_websocket_client_count(), 1);
}

#[test]
fn a_start_without_stored_events_keeps_the_snapshot() {
    let mut manager = ServiceManager::new();
    manager.process_websocket_message(5, "alt:10", 0, 0);
    let plan = manager.start(&Vec::new(), None);
    assert!(plan.brokers.is_empty() && plan.proxies.is_empty());
    assert_eq!(manager.get_device_state(5).map(|s| s.len()), Some(1));
    let plan = manager.start(&Vec::new(), Some(&Vec::new()));
    assert!(plan.brokers.is_empty() && plan.proxies.is_empty());
    assert!(manager.get_device_state(5).is_none());
}

#[test]
fn connected_devices_are_resumed_at_start_up() {
    let device = |device_id: i32, socket_port: Option<u16>, is_active: bool, is_connected: bool| {
        TransportConfig {
            device_id,
            external_uuid: 100 + device_id as u128,
            socket_port,
            broker_port: None,
            broker_enabled: false,
            is_active,
            is_connected,
        }
    };
    let devices = vec![
        device(1, Some(8001), true, true),
        device(2, Some(8002), true, false),
        device(3, None, true, true),
        device(4, Some(8004), false, true),
        device(5, Some(8005), true, true),
    ];
    assert_eq!(
        ServiceManager::auto_connect_devices(&devices),
        vec![
            ProxyRequest { device_id: 1, device_uuid: 101, device_port: 8001 },
            ProxyRequest { device_id: 5, device_uuid: 105, device_port: 8005 },
        ]
    );
}
