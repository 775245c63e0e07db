use uav_realtime::device_websocket_proxy::{
    proxy_port_for, viewer_notification, DeviceFrame, DeviceProxyInfo,
    DeviceWebSocketProxyService, FrameAction, ProxyPlan, SessionState, Teardown,
    MAX_PROXY_DEVICE_ID,
    PROXY_PORT_BASE,
};
use uav_realtime::error::{BindError, NotConnected};
use uav_realtime::json::JsonDocument;
use uav_realtime::realtime_data::{Transport, UnifiedRealtimeMessage};

const UUID: u128 = 0x1234_5678_9abc_def0_1234_5678_9abc_def0;

fn nothing() -> Teardown {
    Teardown { close_device: false, cancel_viewer_listener: false }
}

#[test]
fn the_viewer_port_is_the_base_plus_the_device_id() {
    assert_eq!(PROXY_PORT_BASE, 2333);
    assert_eq!(proxy_port_for(0), Some(2333));
    assert_eq!(proxy_port_for(7), Some(2340));
    assert_eq!(proxy_port_for(MAX_PROXY_DEVICE_ID), Some(65535));
    assert_eq!(proxy_port_for(MAX_PROXY_DEVICE_ID + 1), None);
    assert_eq!(proxy_port_for(-1), None);
    assert_eq!(proxy_port_for(i32::MAX), None);
}

#[test]
fn a_new_proxy_opens_both_listeners_and_waits() {
    let mut proxy = DeviceWebSocketProxyService::new();
    let plan = proxy.create_device_proxy(7, UUID, 8007);
    assert_eq!(plan, ProxyPlan::Open { teardown: nothing(), device_port: 8007, proxy_port: 2340 });
    assert_eq!(
        proxy.get_device_proxy(7),
        Some(DeviceProxyInfo {
            device_id: 7,
            device_uuid: UUID,
            device_port: 8007,
            proxy_port: 2340,
            is_connected: false,
            connection: 0,
        })
    );
    assert!(!proxy.is_device_connected(7));
    assert_eq!(DeviceWebSocketProxyService::listeners_opened(plan, true, true), Ok(2340));
}

#[test]
fn a_connected_device_keeps_its_proxy() {
    let mut proxy = DeviceWebSocketProxyService::new();
    proxy.create_device_proxy(7, UUID, 8007);
    assert_eq!(proxy.device_connected(7), Some(0));
    let plan = proxy.create_device_proxy(7, 99, 9999);
    assert_eq!(plan, ProxyPlan::Existing { proxy_port: 2340 });
    assert_eq!(proxy.get_device_proxy(7).map(|p| (p.device_uuid, p.device_port)), Some((UUID, 8007)));
    assert_eq!(DeviceWebSocketProxyService::listeners_opened(plan, false, false), Ok(2340));
}

#[test]
fn a_stale_session_is_torn_down_first() {
    let mut proxy = DeviceWebSocketProxyService::new();
    proxy.create_device_proxy(7, UUID, 8007);
    let plan = proxy.create_device_proxy(7, UUID, 8008);
    assert_eq!(
        plan,
        ProxyPlan::Open {
            teardown: Teardown { close_device: false, cancel_viewer_listener: true },
            device_port: 8008,
            proxy_port: 2340,
        }
    );
    assert_eq!(proxy.get_device_proxy(7).map(|p| p.device_port), Some(8008));
}

#[test]
fn a_refused_port_is_named_to_the_caller() {
    let plan = ProxyPlan::Open { teardown: nothing(), device_port: 8007, proxy_port: 2340 };
    assert_eq!(
        DeviceWebSocketProxyService::listeners_opened(plan, false, true),
        Err(BindError { port: 8007 })
    );
    assert_eq!(
        DeviceWebSocketProxyService::listeners_opened(plan, false, false),
        Err(BindError { port: 8007 })
    );
    assert_eq!(
        DeviceWebSocketProxyService::listeners_opened(plan, true, false),
        Err(BindError { port: 2340 })
    );
}

#[test]
fn the_session_follows_the_device() {
    let mut proxy = DeviceWebSocketProxyService::new();
    assert_eq!(proxy.session_state(7), SessionState::Idle);
    assert_eq!(proxy.device_connected(7), None);
    assert_eq!(proxy.get_device_proxy(7), None);
    proxy.create_device_proxy(7, UUID, 8007);
    assert_eq!(proxy.session_state(7), SessionState::AwaitingDevice);
    assert_eq!(proxy.device_connected(7), Some(0));
    assert!(proxy.is_device_connected(7));
    assert_eq!(proxy.session_state(7), SessionState::Connected);
    assert!(proxy.device_disconnected(7, 0));
    assert!(!proxy.is_device_connected(7));
    assert_eq!(proxy.session_state(7), SessionState::AwaitingDevice);
    assert!(proxy.get_device_proxy(7).is_some());
    assert!(!proxy.device_disconnected(7, 0));
    assert!(!proxy.device_disconnected(8, 0));
    proxy.disconnect_device(7);
    assert_eq!(proxy.session_state(7), SessionState::Idle);
}

#[test]
fn a_device_that_dials_in_again_replaces_its_connection() {
    let mut proxy = DeviceWebSocketProxyService::new();
    proxy.create_device_proxy(7, UUID, 8007);
    proxy.create_device_proxy(8, UUID, 8008);
    assert_eq!(proxy.device_connected(7), Some(0));
    assert_eq!(proxy.device_connected(8), Some(1));
    assert_eq!(proxy.device_connected(7), Some(2));
    assert_eq!(proxy.get_device_proxy(7).map(|p| p.connection), Some(2));
    // The end of the replaced connection leaves the new one alone.
    assert!(!proxy.device_disconnected(7, 0));
    assert_eq!(
        proxy.handle_device_frame(7, 0, DeviceFrame::Closed),
        FrameAction::End { was_live: false }
    );
    assert!(proxy.is_device_connected(7));
    assert_eq!(proxy.send_device_command(7, "hover"), Ok("hover".to_string()));
    assert!(proxy.device_disconnected(7, 2));
    assert!(!proxy.is_device_connected(7));
    assert!(proxy.is_device_connected(8));
}

#[test]
fn frames_from_the_device_are_told_apart() {
    let mut proxy = DeviceWebSocketProxyService::new();
    proxy.create_device_proxy(7, UUID, 8007);
    let connection = proxy.device_connected(7).unwrap();
    assert_eq!(
        proxy.handle_device_frame(7, connection, DeviceFrame::Text("battery:88".to_string())),
        FrameAction::Process("battery:88".to_string())
    );
    assert_eq!(proxy.handle_device_frame(7, connection, DeviceFrame::Ping), FrameAction::Ignore);
    assert_eq!(proxy.handle_device_frame(7, connection, DeviceFrame::Pong), FrameAction::Ignore);
    assert_eq!(proxy.handle_device_frame(7, connection, DeviceFrame::Binary), FrameAction::Ignore);
    assert!(proxy.is_device_connected(7));
    assert_eq!(
        proxy.handle_device_frame(7, connection, DeviceFrame::Closed),
        FrameAction::End { was_live: true }
    );
    assert!(!proxy.is_device_connected(7));
    assert!(proxy.get_device_proxy(7).is_some());
}

#[test]
fn a_disconnect_clears_the_session() {
    let mut proxy = DeviceWebSocketProxyService::new();
    proxy.create_device_proxy(7, UUID, 8007);
    proxy.device_connected(7);
    proxy.create_device_proxy(8, UUID, 8008);
    assert_eq!(
        proxy.disconnect_device(7),
        Teardown { close_device: true, cancel_viewer_listener: true }
    );
    assert_eq!(proxy.get_device_proxy(7), None);
    assert!(!proxy.is_device_connected(7));
    assert_eq!(
        proxy.disconnect_device(8),
        Teardown { close_device: false, cancel_viewer_listener: true }
    );
    assert_eq!(proxy.disconnect_device(9), nothing());
}

#[test]
fn commands_reach_a_connected_device_only() {
    let mut proxy = DeviceWebSocketProxyService::new();
    assert_eq!(proxy.send_device_command(7, "land"), Err(NotConnected { device_id: 7 }));
    proxy.create_device_proxy(7, UUID, 8007);
    assert_eq!(proxy.send_device_command(7, "land"), Err(NotConnected { device_id: 7 }));
    assert_eq!(proxy.route_viewer_command(7, "land".to_string()), None);
    proxy.device_connected(7);
    assert_eq!(proxy.send_device_command(7, "land"), Ok("land".to_string()));
    assert_eq!(proxy.route_viewer_command(7, "land".to_string()), Some("land".to_string()));
    assert_eq!(proxy.send_device_command(8, "land"), Err(NotConnected { device_id: 8 }));
    proxy.device_disconnected(7, 0);
    assert_eq!(proxy.send_device_command(7, "land"), Err(NotConnected { device_id: 7 }));
    assert_eq!(NotConnected { device_id: 7 }.message(), "Device not connected");
}

#[test]
fn a_viewer_gets_the_events_of_its_device() {
    let event = UnifiedRealtimeMessage {
        device_id: 7,
        message_type: Transport::Broker,
        data: JsonDocument { rendered: "{\"a\":1}".to_string(), members: None },
        notification: "broker:{\"a\":1}".to_string(),
        timestamp: 0,
    };
    assert_eq!(viewer_notification(7, &event), Some("broker:{\"a\":1}".to_string()));
    assert_eq!(viewer_notification(8, &event), None);
}
