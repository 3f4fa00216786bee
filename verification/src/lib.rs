//! Session coordination for Bluetooth Low Energy devices.
//!
//! The library holds the decisions of a BLE front end and none of its radio
//! work: the adapter's lifecycle, the scan state machine, the per-device
//! session state machine with its subscriptions, the registry that keeps one
//! session per address, and the queues that carry results and diagnostics
//! to the single consumer.
//!
//! Every operation comes in two halves. A request decides, from the state
//! alone, whether the operation may start, and hands back the command that
//! the worker runtime is to dispatch. A completion takes the outcome of a
//! dispatched command as plain values, updates the state, and queues the
//! event that reports it. The consumer drains the queues once per tick.

pub mod ble_characteristic;
pub mod ble_device;
pub mod ble_service;
pub mod bluetooth_manager;
pub mod bluetooth_scanner;
pub mod event_bridge;
pub mod notification;
pub mod text;
pub mod text_set;
pub mod types;
