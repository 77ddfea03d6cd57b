use wifui::error::{wlan_reason_to_string, WifiError};

#[test]
fn known_reason_codes_decode_through_the_table() {
    assert_eq!(wlan_reason_to_string(0), "Success");
    assert_eq!(wlan_reason_to_string(1), "Unknown Failure");
    assert_eq!(wlan_reason_to_string(0x00010001), "Network Not Compatible");
    assert_eq!(wlan_reason_to_string(0x00028002), "Association Failed");
    assert_eq!(
        wlan_reason_to_string(0x0002800B),
        "Driver Disconnected (Possible Wrong Password)"
    );
    assert_eq!(
        wlan_reason_to_string(0x00038002),
        "Connection Failed (Network Not Available or Wrong Password)"
    );
    assert_eq!(wlan_reason_to_string(0x00050004), "Incorrect Password");
    assert_eq!(
        wlan_reason_to_string(0x00048005),
        "Incorrect Password (Key Exchange Timeout)"
    );
    assert_eq!(wlan_reason_to_string(0x00080006), "MSM Security Missing");
}

#[test]
fn unknown_reason_code_names_itself_in_decimal_and_hex() {
    let text = wlan_reason_to_string(999999);
    assert_eq!(text, "Unknown Error (Code: 999999, 0xF423F)");
    assert!(text.contains("999999"));
    assert!(text.contains("F423F"));
}

#[test]
fn another_unknown_reason_code_round() {
    assert_eq!(
        wlan_reason_to_string(0xDEADBEEF),
        "Unknown Error (Code: 3735928559, 0xDEADBEEF)"
    );
}

#[test]
fn error_messages_spell_their_codes() {
    assert_eq!(
        WifiError::HandleOpenFailed { code: 5 }.message(),
        "Failed to open WLAN handle (code: 5)"
    );
    assert_eq!(
        WifiError::InterfaceEnumFailed { code: 87 }.message(),
        "Failed to enumerate interfaces (code: 87)"
    );
    assert_eq!(WifiError::NoInterface.message(), "No WiFi interface found");
    assert_eq!(
        WifiError::NetworkListFailed { code: 1168 }.message(),
        "Failed to get available networks (code: 1168)"
    );
    assert_eq!(
        WifiError::NotificationRegistrationFailed { code: 6 }.message(),
        "Failed to register notification (code: 6)"
    );
    assert_eq!(
        WifiError::ScanFailed { code: 2 }.message(),
        "Failed to scan networks (code: 2)"
    );
    assert_eq!(
        WifiError::ConnectionFailed { code: 1 }.message(),
        "Failed to connect (code: 1)"
    );
    assert_eq!(
        WifiError::ProfileAddFailed { code: 87, reason: 327684 }.message(),
        "Failed to add profile (code: 87, reason: 327684)"
    );
    assert_eq!(
        WifiError::ProfileGetFailed { code: 2 }.message(),
        "Failed to get profile (code: 2)"
    );
    assert_eq!(
        WifiError::ProfileSetFailed { code: 3, reason: 4 }.message(),
        "Failed to set profile (code: 3, reason: 4)"
    );
    assert_eq!(
        WifiError::ProfileDeleteFailed { code: 9 }.message(),
        "Failed to delete profile (code: 9)"
    );
    assert_eq!(
        WifiError::DisconnectFailed { code: 10 }.message(),
        "Failed to disconnect (code: 10)"
    );
    assert_eq!(
        WifiError::ProfileXmlInvalid.message(),
        "Could not find connectionMode in profile XML"
    );
    assert_eq!(
        WifiError::Internal(String::from("worker gone")).message(),
        "Internal error: worker gone"
    );
}
