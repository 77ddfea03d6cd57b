//! Connection-lifecycle notifications: the events the listener forwards into
//! the control loop, and their classification from a validated native
//! notification.
use vstd::prelude::*;
use crate::error::{reason_string, wlan_reason_to_string};

verus! {

/// A connection-lifecycle notification, carrying the network name it is
/// about; a failure also carries its reason code and that code decoded.
#[derive(Debug, Clone)]
pub enum ConnectionEvent {
    Connected(String),
    Disconnected(String),
    Failed { ssid: String, reason_code: u32, reason_str: String },
}

/// The shape of a native connection notification after the listener has
/// validated its source and size.
#[derive(Debug, Clone, Copy, PartialEq, Eq, Structural)]
pub enum AcmNotification {
    ConnectionComplete,
    ConnectionAttemptFail,
    Disconnected,
    Other,
}

/// Classifies a validated notification into the event the control loop
/// consumes: completions and disconnections carry the name; failures carry
/// the reason code and its decoded text; anything else is dropped.
pub fn connection_event_for(kind: AcmNotification, ssid: String, reason_code: u32) -> (r: Option<
    ConnectionEvent,
>)
    ensures
        match kind {
            AcmNotification::ConnectionComplete => r matches Some(ConnectionEvent::Connected(s))
                && s@ == ssid@,
            AcmNotification::Disconnected => r matches Some(ConnectionEvent::Disconnected(s)) && s@
                == ssid@,
            AcmNotification::ConnectionAttemptFail => r matches Some(
                ConnectionEvent::Failed { ssid: s, reason_code: rc, reason_str: rs },
            ) && s@ == ssid@ && rc == reason_code && rs@ == reason_string(reason_code),
            AcmNotification::Other => r is None,
        },
{
    match kind {
        AcmNotification::ConnectionComplete => Some(ConnectionEvent::Connected(ssid)),
        AcmNotification::Disconnected => Some(ConnectionEvent::Disconnected(ssid)),
        AcmNotification::ConnectionAttemptFail => Some(
            ConnectionEvent::Failed {
                ssid,
                reason_code,
                reason_str: wlan_reason_to_string(reason_code),
            },
        ),
        AcmNotification::Other => None,
    }
}

} // verus!
