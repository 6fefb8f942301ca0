//! Scan-and-decode pipeline for BLE heart-rate advertisements.
//!
//! The library holds the verified core of a passive Bluetooth Low Energy
//! scanner: the manufacturer-data decoder that extracts a `(device_id,
//! heart_rate)` reading from an untrusted advertisement payload, the
//! dispatcher that filters and decodes a stream of advertisement events in
//! order, and the startup/lifecycle state machine that governs how a scan
//! session is brought up and torn down. Platform I/O (radio access, the
//! asynchronous event stream, callback delivery) lives outside the library
//! and drives these functions with plain values.

pub mod decoder;
pub mod dispatch;
pub mod lifecycle;
