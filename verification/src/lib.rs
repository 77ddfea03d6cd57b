//! A control plane for a native, blocking wireless subsystem: the
//! credential-profile document codec, the scan merge engine, the connection
//! controller's plans, the notification classifier, and the orchestration
//! loop's connection state machine and refresh schedule — each with a
//! contract that says exactly what it computes. The blocking native calls
//! themselves, and the terminal around them, live outside this crate and
//! hand plain values in and out.
pub mod config;
pub mod connect;
pub mod error;
pub mod events;
pub mod filter;
pub mod input;
pub mod qr;
pub mod profile;
pub mod scan;
pub mod state;
pub mod status;
pub mod text;
