use wifui::scan::{
    channel_from_frequency, get_wifi_networks, AuthAlgorithm, BssKind, BssObservation,
    CipherAlgorithm, CurrentConnection, NetworkEntry, PhyKind,
};

fn entry(ssid: &str, auth: AuthAlgorithm, signal: u8, saved: bool) -> NetworkEntry {
    NetworkEntry {
        ssid: String::from(ssid),
        auth,
        cipher: CipherAlgorithm::Ccmp,
        bss_kind: BssKind::Infrastructure,
        phy: Some(PhyKind::He),
        signal,
        has_profile: saved,
        auto_connect: false,
    }
}

#[test]
fn channel_math_across_bands() {
    assert_eq!(channel_from_frequency(2412000), 1);
    assert_eq!(channel_from_frequency(2437000), 6);
    assert_eq!(channel_from_frequency(2484000), 14);
    assert_eq!(channel_from_frequency(5180000), 36);
    assert_eq!(channel_from_frequency(5825000), 165);
    assert_eq!(channel_from_frequency(5955000), 1);
    assert_eq!(channel_from_frequency(7115000), 233);
    assert_eq!(channel_from_frequency(1000), 0);
}

#[test]
fn two_measurements_and_a_saved_profile_merge_to_one_row() {
    let entries = vec![
        entry("Cafe", AuthAlgorithm::RsnaPsk, 40, false),
        entry("Cafe", AuthAlgorithm::RsnaPsk, 70, true),
    ];
    let list = get_wifi_networks(&entries, &Vec::new(), &None);
    assert_eq!(list.len(), 1);
    assert_eq!(list[0].ssid, "Cafe");
    assert_eq!(list[0].signal, 70);
    assert!(list[0].is_saved);
}

#[test]
fn merge_keeps_max_signal_and_ors_the_marks() {
    let mut a = entry("Net", AuthAlgorithm::RsnaPsk, 90, true);
    a.auto_connect = true;
    let b = entry("Net", AuthAlgorithm::RsnaPsk, 55, false);
    let list = get_wifi_networks(&vec![a, b], &Vec::new(), &None);
    assert_eq!(list.len(), 1);
    assert_eq!(list[0].signal, 90);
    assert!(list[0].is_saved);
    assert!(list[0].auto_connect);
}

#[test]
fn same_name_different_authentication_stays_apart() {
    let entries = vec![
        entry("Dual", AuthAlgorithm::RsnaPsk, 50, false),
        entry("Dual", AuthAlgorithm::Wpa3Sae, 60, false),
    ];
    let list = get_wifi_networks(&entries, &Vec::new(), &None);
    assert_eq!(list.len(), 2);
}

#[test]
fn empty_names_are_skipped() {
    let entries = vec![entry("", AuthAlgorithm::RsnaPsk, 50, false)];
    let list = get_wifi_networks(&entries, &Vec::new(), &None);
    assert!(list.is_empty());
}

#[test]
fn sorted_connected_then_saved_then_signal() {
    let entries = vec![
        entry("Weak", AuthAlgorithm::RsnaPsk, 20, false),
        entry("SavedNet", AuthAlgorithm::RsnaPsk, 30, true),
        entry("Strong", AuthAlgorithm::RsnaPsk, 95, false),
        entry("Home", AuthAlgorithm::RsnaPsk, 10, true),
    ];
    let current = Some(CurrentConnection { ssid: String::from("Home"), tx_rate_kbps: 144000 });
    let list = get_wifi_networks(&entries, &Vec::new(), &current);
    assert_eq!(list.len(), 4);
    assert_eq!(list[0].ssid, "Home");
    assert!(list[0].is_connected);
    assert_eq!(list[0].link_speed, Some(144));
    assert_eq!(list[1].ssid, "SavedNet");
    assert_eq!(list[2].ssid, "Strong");
    assert_eq!(list[3].ssid, "Weak");
}

#[test]
fn strongest_measurement_gives_channel_and_frequency() {
    let entries = vec![entry("Net", AuthAlgorithm::RsnaPsk, 60, false)];
    let bss = vec![
        BssObservation {
            ssid: String::from("Net"),
            rssi: -70,
            center_frequency: 2412000,
        },
        BssObservation {
            ssid: String::from("Net"),
            rssi: -40,
            center_frequency: 5180000,
        },
        BssObservation {
            ssid: String::from("Other"),
            rssi: -10,
            center_frequency: 2484000,
        },
    ];
    let list = get_wifi_networks(&entries, &bss, &None);
    assert_eq!(list.len(), 1);
    assert_eq!(list[0].frequency, 5180000);
    assert_eq!(list[0].channel, 36);
}

#[test]
fn measurement_tie_takes_the_later_report() {
    let entries = vec![entry("Net", AuthAlgorithm::RsnaPsk, 60, false)];
    let bss = vec![
        BssObservation {
            ssid: String::from("Net"),
            rssi: -50,
            center_frequency: 2412000,
        },
        BssObservation {
            ssid: String::from("Net"),
            rssi: -50,
            center_frequency: 2437000,
        },
    ];
    let list = get_wifi_networks(&entries, &bss, &None);
    assert_eq!(list[0].frequency, 2437000);
    assert_eq!(list[0].channel, 6);
}

#[test]
fn no_measurement_means_no_channel() {
    let entries = vec![entry("Net", AuthAlgorithm::RsnaPsk, 60, false)];
    let list = get_wifi_networks(&entries, &Vec::new(), &None);
    assert_eq!(list[0].frequency, 0);
    assert_eq!(list[0].channel, 0);
}

#[test]
fn display_tokens_for_the_row() {
    let entries = vec![entry("Net", AuthAlgorithm::RsnaPsk, 60, false)];
    let list = get_wifi_networks(&entries, &Vec::new(), &None);
    assert_eq!(list[0].authentication, "WPA2-PSK");
    assert_eq!(list[0].encryption, "AES");
    assert_eq!(list[0].network_type, "Infrastructure");
    assert_eq!(list[0].phy_type, "802.11ax (Wi-Fi 6)");
}
