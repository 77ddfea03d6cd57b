use wifui::connect::{
    connect_open, connect_profile, connect_with_password, NativeAction, SecurityChoice,
};
use wifui::profile::Secret;
use wifui::status::{
    connect_outcome, delete_profile_outcome, disconnect_outcome, interface_outcome,
    network_list_outcome, open_outcome, profile_add_outcome, profile_get_outcome,
    profile_set_outcome, registration_outcome, scan_outcome,
};
use wifui::error::WifiError;

fn record(plan: &[NativeAction]) -> Vec<&'static str> {
    plan.iter()
        .map(|a| match a {
            NativeAction::Disconnect => "disconnect",
            NativeAction::AddProfile { .. } => "add_profile",
            NativeAction::Wait { .. } => "wait",
            NativeAction::ConnectProfile { .. } => "connect_profile",
        })
        .collect()
}

#[test]
fn credential_connect_while_connected_disconnects_before_installing() {
    let old = String::from("Old");
    let plan = connect_with_password(
        Some(&old),
        "New",
        &Secret::new(String::from("pw")),
        "WPA2-PSK",
        "AES",
        false,
    );
    assert_eq!(
        record(&plan),
        vec!["disconnect", "add_profile", "wait", "connect_profile"]
    );
    match &plan[3] {
        NativeAction::ConnectProfile { ssid } => assert_eq!(ssid, "New"),
        _ => panic!("connect step expected"),
    }
    match &plan[2] {
        NativeAction::Wait { ms } => assert_eq!(*ms, 1500),
        _ => panic!("settle delay expected"),
    }
}

#[test]
fn credential_connect_while_idle_skips_the_disconnect() {
    let plan = connect_with_password(
        None,
        "New",
        &Secret::new(String::from("pw")),
        "WPA2-PSK",
        "AES",
        false,
    );
    assert_eq!(record(&plan), vec!["add_profile", "wait", "connect_profile"]);
    match &plan[0] {
        NativeAction::AddProfile { xml } => {
            assert!(xml.contains("<name>New</name>"));
            assert!(xml.contains("<keyMaterial>pw</keyMaterial>"));
        },
        _ => panic!("install step expected"),
    }
}

#[test]
fn open_connect_plan_uses_the_shorter_settle_delay() {
    let plan = connect_open(None, "Cafe", false);
    assert_eq!(record(&plan), vec!["add_profile", "wait", "connect_profile"]);
    match &plan[1] {
        NativeAction::Wait { ms } => assert_eq!(*ms, 1000),
        _ => panic!("settle delay expected"),
    }
}

#[test]
fn saved_connect_plan_disconnects_first_only_while_connected() {
    let old = String::from("Old");
    assert_eq!(
        record(&connect_profile(Some(&old), "Home")),
        vec!["disconnect", "connect_profile"]
    );
    assert_eq!(record(&connect_profile(None, "Home")), vec!["connect_profile"]);
}

#[test]
fn security_choices_cycle_and_label() {
    let mut c = SecurityChoice::Wpa2Personal;
    let mut labels: Vec<&'static str> = Vec::new();
    for _ in 0..5 {
        labels.push(c.label());
        c = c.next();
    }
    assert_eq!(
        labels,
        vec!["WPA2-Personal", "WPA3-Personal", "Open", "WPA-Personal", "WEP"]
    );
    assert_eq!(c, SecurityChoice::Wpa2Personal);
    assert_eq!(SecurityChoice::Wpa2Personal.previous(), SecurityChoice::Wep);
    assert_eq!(
        SecurityChoice::from_label("WPA3-Personal"),
        Some(SecurityChoice::Wpa3Personal)
    );
    assert_eq!(SecurityChoice::from_label("nonsense"), None);
    assert_eq!(SecurityChoice::Wpa3Personal.auth_cipher(), ("WPA3-SAE", "AES"));
    assert_eq!(SecurityChoice::Wep.auth_cipher(), ("Shared", "WEP"));
}

#[test]
fn status_outcomes_map_zero_to_success() {
    assert!(open_outcome(0).is_ok());
    assert!(matches!(
        open_outcome(5),
        Err(WifiError::HandleOpenFailed { code: 5 })
    ));
    assert!(interface_outcome(0, 1).is_ok());
    assert!(matches!(
        interface_outcome(3, 1),
        Err(WifiError::InterfaceEnumFailed { code: 3 })
    ));
    assert!(matches!(interface_outcome(0, 0), Err(WifiError::NoInterface)));
    assert!(scan_outcome(0).is_ok());
    assert!(matches!(scan_outcome(7), Err(WifiError::ScanFailed { code: 7 })));
    assert!(network_list_outcome(0).is_ok());
    assert!(matches!(
        network_list_outcome(2),
        Err(WifiError::NetworkListFailed { code: 2 })
    ));
    assert!(connect_outcome(0).is_ok());
    assert!(matches!(
        connect_outcome(5023),
        Err(WifiError::ConnectionFailed { code: 5023 })
    ));
    assert!(profile_add_outcome(0, 0).is_ok());
    assert!(matches!(
        profile_add_outcome(87, 327684),
        Err(WifiError::ProfileAddFailed { code: 87, reason: 327684 })
    ));
    assert!(profile_get_outcome(0, true).is_ok());
    assert!(matches!(
        profile_get_outcome(0, false),
        Err(WifiError::ProfileGetFailed { code: 0 })
    ));
    assert!(profile_set_outcome(0, 0).is_ok());
    assert!(matches!(
        profile_set_outcome(1, 2),
        Err(WifiError::ProfileSetFailed { code: 1, reason: 2 })
    ));
    assert!(disconnect_outcome(0).is_ok());
    assert!(matches!(
        disconnect_outcome(4),
        Err(WifiError::DisconnectFailed { code: 4 })
    ));
    assert!(registration_outcome(0).is_ok());
    assert!(matches!(
        registration_outcome(6),
        Err(WifiError::NotificationRegistrationFailed { code: 6 })
    ));
}

#[test]
fn forgetting_an_absent_profile_counts_as_success() {
    assert!(delete_profile_outcome(0).is_ok());
    assert!(delete_profile_outcome(1168).is_ok());
    assert!(matches!(
        delete_profile_outcome(5),
        Err(WifiError::ProfileDeleteFailed { code: 5 })
    ));
}
