use wifui::profile::{
    clean_profile_names, create_profile_xml, extract_stored_key, read_auto_connect,
    set_auto_connect, Secret,
};
use wifui::error::WifiError;

fn secret(s: &str) -> Secret {
    Secret::new(String::from(s))
}

#[test]
fn secured_document_has_exact_text() {
    let doc = create_profile_xml("MyNet", "WPA2-PSK", "AES", Some(&secret("hunter2")), false);
    let mut expected = String::new();
    expected.push_str("<?xml version=\"1.0\"?>");
    expected.push_str("<WLANProfile xmlns=\"http://www.microsoft.com/networking/WLAN/profile/v1\">");
    expected.push_str("<name>MyNet</name>");
    expected.push_str("<SSIDConfig><SSID><name>MyNet</name></SSID></SSIDConfig>");
    expected.push_str("<connectionType>ESS</connectionType>");
    expected.push_str("<connectionMode>auto</connectionMode>");
    expected.push_str("<MSM><security><authEncryption>");
    expected.push_str("<authentication>WPA2PSK</authentication>");
    expected.push_str("<encryption>AES</encryption>");
    expected.push_str("<useOneX>false</useOneX>");
    expected.push_str("</authEncryption>");
    expected.push_str("<sharedKey><keyType>passPhrase</keyType><protected>false</protected>");
    expected.push_str("<keyMaterial>hunter2</keyMaterial></sharedKey>");
    expected.push_str("</security></MSM></WLANProfile>");
    assert_eq!(doc, expected);
}

#[test]
fn open_document_is_manual_and_keyless() {
    let doc = create_profile_xml("Cafe", "Open", "None", None, false);
    assert!(doc.contains("<connectionMode>manual</connectionMode>"));
    assert!(doc.contains("<authentication>open</authentication>"));
    assert!(doc.contains("<encryption>none</encryption>"));
    assert!(!doc.contains("sharedKey"));
    assert!(!doc.contains("nonBroadcast"));
}

#[test]
fn hidden_network_document_marks_non_broadcast() {
    let doc = create_profile_xml("Hidden", "WPA2-PSK", "AES", Some(&secret("pw")), true);
    assert!(doc.contains("</SSID><nonBroadcast>true</nonBroadcast></SSIDConfig>"));
}

#[test]
fn document_escapes_markup_in_name_and_key() {
    let doc = create_profile_xml("A&B<C>", "WPA2-PSK", "AES", Some(&secret("p\"w'd&")), false);
    assert!(doc.contains("<name>A&amp;B&lt;C&gt;</name>"));
    assert!(doc.contains("<keyMaterial>p&quot;w&apos;d&amp;</keyMaterial>"));
}

#[test]
fn wpa3_and_wep_wire_tokens() {
    let doc = create_profile_xml("N", "WPA3-SAE", "AES", Some(&secret("pw")), false);
    assert!(doc.contains("<authentication>WPA3SAE</authentication>"));
    let doc2 = create_profile_xml("N", "WEP", "WEP", Some(&secret("pw")), false);
    assert!(doc2.contains("<authentication>shared</authentication>"));
    assert!(doc2.contains("<encryption>WEP</encryption>"));
    let doc3 = create_profile_xml("N", "WPA-PSK", "TKIP", Some(&secret("pw")), false);
    assert!(doc3.contains("<encryption>TKIP</encryption>"));
    let doc4 = create_profile_xml("N", "WPA2-PSK", "GCMP", Some(&secret("pw")), false);
    assert!(doc4.contains("<encryption>GCMP</encryption>"));
}

#[test]
fn stored_key_round_trips_through_document() {
    let pwd = "a&b<c>d\"e'f";
    let ssid = "S&S<I>D\"x'y";
    let doc = create_profile_xml(ssid, "WPA2-PSK", "AES", Some(&secret(pwd)), false);
    let key = extract_stored_key(&doc).expect("key expected");
    assert_eq!(key.expose_secret(), pwd);
}

#[test]
fn extract_stored_key_absent_for_open_document() {
    let doc = create_profile_xml("Cafe", "Open", "None", None, false);
    assert!(extract_stored_key(&doc).is_none());
}

#[test]
fn extract_stored_key_empty_key_is_absent() {
    let doc = "<a><keyMaterial></keyMaterial></a>";
    assert!(extract_stored_key(doc).is_none());
}

#[test]
fn read_auto_connect_reads_the_mode_element() {
    let auto_doc = create_profile_xml("N", "WPA2-PSK", "AES", Some(&secret("pw")), false);
    assert!(read_auto_connect(&auto_doc));
    let manual_doc = create_profile_xml("N", "Open", "None", None, false);
    assert!(!read_auto_connect(&manual_doc));
}

#[test]
fn set_auto_connect_rewrites_auto_to_manual() {
    let doc = create_profile_xml("N", "WPA2-PSK", "AES", Some(&secret("pw")), false);
    let rewritten = set_auto_connect(&doc, false).expect("rewrite expected");
    assert!(rewritten.contains("<connectionMode>manual</connectionMode>"));
    assert!(!rewritten.contains("<connectionMode>auto</connectionMode>"));
}

#[test]
fn set_auto_connect_rewrites_manual_to_auto() {
    let doc = create_profile_xml("N", "Open", "None", None, false);
    let rewritten = set_auto_connect(&doc, true).expect("rewrite expected");
    assert!(rewritten.contains("<connectionMode>auto</connectionMode>"));
    assert!(!rewritten.contains("<connectionMode>manual</connectionMode>"));
}

#[test]
fn set_auto_connect_without_mode_element_fails() {
    let r = set_auto_connect("<WLANProfile><name>N</name></WLANProfile>", true);
    assert!(matches!(r, Err(WifiError::ProfileXmlInvalid)));
}

#[test]
fn set_auto_connect_enable_twice_equals_once() {
    let doc = create_profile_xml("N", "Open", "None", None, false);
    let once = set_auto_connect(&doc, true).expect("rewrite expected");
    let twice = set_auto_connect(&once, true).expect("rewrite expected");
    assert_eq!(once, twice);
}

#[test]
fn clean_profile_names_strips_padding_and_drops_empties() {
    let raw = vec![
        String::from("Home\0\0\0"),
        String::from("\0\0"),
        String::from("Cafe"),
        String::from(""),
    ];
    let cleaned = clean_profile_names(&raw);
    assert_eq!(cleaned, vec![String::from("Home"), String::from("Cafe")]);
}
