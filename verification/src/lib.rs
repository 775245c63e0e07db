//! Real-time device connectivity core.
//!
//! The crate holds the decisions of a telemetry gateway as plain state
//! machines: the wire broker's frame handling, the broker registry, the
//! device proxy sessions, the ingest pipeline with its latest-state snapshot
//! and write scheduling, and the broadcast hub. Sockets, timers and storage
//! stay with the caller, which feeds events in and carries actions out.

pub mod broadcast;
pub mod device_websocket_proxy;
pub mod directory;
pub mod error;
pub mod frame;
pub mod json;
pub mod json_tree;
pub mod mqtt_broker;
pub mod mqtt_service;
pub mod pagination;
pub mod realtime_data;
pub mod registry;
pub mod response;
pub mod service_manager;
pub mod text;
