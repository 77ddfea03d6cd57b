//! The connection controller: turns a connect, disconnect or forget wish
//! into the exact sequence of native actions to perform. No atomic hand-off
//! between two profiles exists at the native level, so every plan that
//! starts a new connection while one is held disconnects first and lets that
//! complete.
use vstd::prelude::*;
use crate::config::{OPEN_PROFILE_REGISTRATION_DELAY_MS, PROFILE_REGISTRATION_DELAY_MS};
use crate::profile::{
    create_profile_xml, key_view, profile_document, wire_auth_token, wire_cipher_token, Secret,
};
use crate::text::str_eq;

verus! {

/// One blocking native operation, to be run off the control loop.
#[derive(Debug)]
pub enum NativeAction {
    /// Drop the held connection and let the drop complete.
    Disconnect,
    /// Install a credential-profile document in the store.
    AddProfile { xml: String },
    /// Let the store settle: installation and connection are acknowledged
    /// independently.
    Wait { ms: u64 },
    /// Connect by stored profile name.
    ConnectProfile { ssid: String },
}

/// The security choices offered for adding a network by hand, in the order
/// they are cycled through.
#[derive(Debug, Clone, Copy, PartialEq, Eq, Structural)]
pub enum SecurityChoice {
    Wpa2Personal,
    Wpa3Personal,
    OpenNetwork,
    WpaPersonal,
    Wep,
}

impl SecurityChoice {
    /// The label shown for the choice.
    pub fn label(&self) -> (r: &'static str)
        ensures
            r@ == (match self {
                SecurityChoice::Wpa2Personal => "WPA2-Personal"@,
                SecurityChoice::Wpa3Personal => "WPA3-Personal"@,
                SecurityChoice::OpenNetwork => "Open"@,
                SecurityChoice::WpaPersonal => "WPA-Personal"@,
                SecurityChoice::Wep => "WEP"@,
            }),
    {
        match self {
            SecurityChoice::Wpa2Personal => "WPA2-Personal",
            SecurityChoice::Wpa3Personal => "WPA3-Personal",
            SecurityChoice::OpenNetwork => "Open",
            SecurityChoice::WpaPersonal => "WPA-Personal",
            SecurityChoice::Wep => "WEP",
        }
    }

    /// The choice a label names, where it names one.
    pub fn from_label(label: &str) -> (r: Option<SecurityChoice>)
        ensures
            r == (if label@ == "WPA2-Personal"@ {
                Some(SecurityChoice::Wpa2Personal)
            } else if label@ == "WPA3-Personal"@ {
                Some(SecurityChoice::Wpa3Personal)
            } else if label@ == "Open"@ {
                Some(SecurityChoice::OpenNetwork)
            } else if label@ == "WPA-Personal"@ {
                Some(SecurityChoice::WpaPersonal)
            } else if label@ == "WEP"@ {
                Some(SecurityChoice::Wep)
            } else {
                None
            }),
    {
        if str_eq(label, "WPA2-Personal") {
            Some(SecurityChoice::Wpa2Personal)
        } else if str_eq(label, "WPA3-Personal") {
            Some(SecurityChoice::Wpa3Personal)
        } else if str_eq(label, "Open") {
            Some(SecurityChoice::OpenNetwork)
        } else if str_eq(label, "WPA-Personal") {
            Some(SecurityChoice::WpaPersonal)
        } else if str_eq(label, "WEP") {
            Some(SecurityChoice::Wep)
        } else {
            None
        }
    }

    /// The next choice in cycling order.
    pub fn next(&self) -> (r: SecurityChoice)
        ensures
            r == (match self {
                SecurityChoice::Wpa2Personal => SecurityChoice::Wpa3Personal,
                SecurityChoice::Wpa3Personal => SecurityChoice::OpenNetwork,
                SecurityChoice::OpenNetwork => SecurityChoice::WpaPersonal,
                SecurityChoice::WpaPersonal => SecurityChoice::Wep,
                SecurityChoice::Wep => SecurityChoice::Wpa2Personal,
            }),
    {
        match self {
            SecurityChoice::Wpa2Personal => SecurityChoice::Wpa3Personal,
            SecurityChoice::Wpa3Personal => SecurityChoice::OpenNetwork,
            SecurityChoice::OpenNetwork => SecurityChoice::WpaPersonal,
            SecurityChoice::WpaPersonal => SecurityChoice::Wep,
            SecurityChoice::Wep => SecurityChoice::Wpa2Personal,
        }
    }

    /// The previous choice in cycling order.
    pub fn previous(&self) -> (r: SecurityChoice)
        ensures
            r == (match self {
                SecurityChoice::Wpa2Personal => SecurityChoice::Wep,
                SecurityChoice::Wpa3Personal => SecurityChoice::Wpa2Personal,
                SecurityChoice::OpenNetwork => SecurityChoice::Wpa3Personal,
                SecurityChoice::WpaPersonal => SecurityChoice::OpenNetwork,
                SecurityChoice::Wep => SecurityChoice::WpaPersonal,
            }),
    {
        match self {
            SecurityChoice::Wpa2Personal => SecurityChoice::Wep,
            SecurityChoice::Wpa3Personal => SecurityChoice::Wpa2Personal,
            SecurityChoice::OpenNetwork => SecurityChoice::Wpa3Personal,
            SecurityChoice::WpaPersonal => SecurityChoice::OpenNetwork,
            SecurityChoice::Wep => SecurityChoice::WpaPersonal,
        }
    }

    /// The abstract descriptor and cipher handed to the document builder for
    /// a secured choice.
    pub fn auth_cipher(&self) -> (r: (&'static str, &'static str))
        ensures
            r.0@ == (match self {
                SecurityChoice::Wpa3Personal => "WPA3-SAE"@,
                SecurityChoice::Wpa2Personal => "WPA2-PSK"@,
                SecurityChoice::WpaPersonal => "WPA-PSK"@,
                SecurityChoice::Wep => "Shared"@,
                SecurityChoice::OpenNetwork => "Open"@,
            }),
            r.1@ == (match self {
                SecurityChoice::Wep => "WEP"@,
                SecurityChoice::OpenNetwork => "None"@,
                _ => "AES"@,
            }),
    {
        match self {
            SecurityChoice::Wpa3Personal => ("WPA3-SAE", "AES"),
            SecurityChoice::Wpa2Personal => ("WPA2-PSK", "AES"),
            SecurityChoice::WpaPersonal => ("WPA-PSK", "AES"),
            SecurityChoice::Wep => ("Shared", "WEP"),
            SecurityChoice::OpenNetwork => ("Open", "None"),
        }
    }
}

/// The plan for connecting to an already saved network: disconnect first
/// when a connection is held, then connect by name.
pub fn connect_profile(connected: Option<&String>, ssid: &str) -> (plan: Vec<NativeAction>)
    ensures
        ({
            let base: int = if connected is Some {
                1int
            } else {
                0int
            };
            &&& plan@.len() == base + 1
            &&& (connected is Some ==> plan@[0] is Disconnect)
            &&& (plan@[base] matches NativeAction::ConnectProfile { ssid: s } && s@ == ssid@)
        }),
{
    let mut plan: Vec<NativeAction> = Vec::new();
    if connected.is_some() {
        plan.push(NativeAction::Disconnect);
    }
    plan.push(NativeAction::ConnectProfile { ssid: String::from_str(ssid) });
    plan
}

/// The plan for connecting with a credential: disconnect first when a
/// connection is held, then install the secured document, wait for the store
/// to settle, and connect by name. The disconnect stands before the document
/// is installed.
pub fn connect_with_password(
    connected: Option<&String>,
    ssid: &str,
    password: &Secret,
    auth: &str,
    cipher: &str,
    hidden: bool,
) -> (plan: Vec<NativeAction>)
    ensures
        ({
            let base: int = if connected is Some {
                1int
            } else {
                0int
            };
            &&& plan@.len() == base + 3
            &&& (connected is Some ==> plan@[0] is Disconnect)
            &&& (plan@[base] matches NativeAction::AddProfile { xml } && xml@ == profile_document(
                ssid@,
                wire_auth_token(auth@, cipher@),
                wire_cipher_token(auth@, cipher@),
                Some(password@),
                hidden,
            ))
            &&& plan@[base + 1] == NativeAction::Wait { ms: PROFILE_REGISTRATION_DELAY_MS }
            &&& (plan@[base + 2] matches NativeAction::ConnectProfile { ssid: s } && s@ == ssid@)
        }),
{
    let xml = create_profile_xml(ssid, auth, cipher, Some(password), hidden);
    let mut plan: Vec<NativeAction> = Vec::new();
    if connected.is_some() {
        plan.push(NativeAction::Disconnect);
    }
    plan.push(NativeAction::AddProfile { xml });
    plan.push(NativeAction::Wait { ms: PROFILE_REGISTRATION_DELAY_MS });
    plan.push(NativeAction::ConnectProfile { ssid: String::from_str(ssid) });
    plan
}

/// The plan for connecting to an open network: disconnect first when a
/// connection is held, then install the open document, wait, and connect by
/// name.
pub fn connect_open(connected: Option<&String>, ssid: &str, hidden: bool) -> (plan: Vec<
    NativeAction,
>)
    ensures
        ({
            let base: int = if connected is Some {
                1int
            } else {
                0int
            };
            &&& plan@.len() == base + 3
            &&& (connected is Some ==> plan@[0] is Disconnect)
            &&& (plan@[base] matches NativeAction::AddProfile { xml } && xml@ == profile_document(
                ssid@,
                wire_auth_token("Open"@, "None"@),
                wire_cipher_token("Open"@, "None"@),
                None,
                hidden,
            ))
            &&& plan@[base + 1] == NativeAction::Wait { ms: OPEN_PROFILE_REGISTRATION_DELAY_MS }
            &&& (plan@[base + 2] matches NativeAction::ConnectProfile { ssid: s } && s@ == ssid@)
        }),
{
    let xml = create_profile_xml(ssid, "Open", "None", None, hidden);
    let mut plan: Vec<NativeAction> = Vec::new();
    if connected.is_some() {
        plan.push(NativeAction::Disconnect);
    }
    plan.push(NativeAction::AddProfile { xml });
    plan.push(NativeAction::Wait { ms: OPEN_PROFILE_REGISTRATION_DELAY_MS });
    plan.push(NativeAction::ConnectProfile { ssid: String::from_str(ssid) });
    plan
}

} // verus!
