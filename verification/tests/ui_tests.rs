use wifui::config::{loading_char, IconSet};
use wifui::filter::{filter_networks, fuzzy_match, next_index, previous_index};
use wifui::input::InputState;
use wifui::profile::Secret;
use wifui::qr::{build_qr_payload, escape_special_chars, generate_wifi_qr};
use wifui::scan::{AuthAlgorithm, BssKind, CipherAlgorithm, NetworkEntry, PhyKind, WifiInfo};

fn chars(s: &str) -> Vec<char> {
    s.chars().collect()
}

fn typed(s: &str) -> InputState {
    let mut input = InputState::new();
    for c in s.chars() {
        input.insert(c);
    }
    input
}

#[test]
fn insert_and_backspace_edit_at_the_cursor() {
    let mut input = typed("helo");
    input.move_left();
    input.insert('l');
    assert_eq!(input.value, chars("hello"));
    assert_eq!(input.cursor, 4);
    input.backspace();
    assert_eq!(input.value, chars("helo"));
    assert_eq!(input.cursor, 3);
}

#[test]
fn backspace_at_the_start_does_nothing() {
    let mut input = typed("ab");
    input.move_home();
    input.backspace();
    assert_eq!(input.value, chars("ab"));
    assert_eq!(input.cursor, 0);
}

#[test]
fn backspace_word_removes_the_word_and_its_trailing_space() {
    let mut input = typed("one two  ");
    input.backspace_word();
    assert_eq!(input.value, chars("one "));
    assert_eq!(input.cursor, 4);
    input.backspace_word();
    assert_eq!(input.value, chars(""));
    assert_eq!(input.cursor, 0);
}

#[test]
fn word_movement_lands_on_boundaries() {
    let mut input = typed("one two three");
    input.move_word_left();
    assert_eq!(input.cursor, 8);
    input.move_word_left();
    assert_eq!(input.cursor, 4);
    input.move_word_right();
    assert_eq!(input.cursor, 8);
    input.move_end();
    assert_eq!(input.cursor, 13);
    input.move_home();
    assert_eq!(input.cursor, 0);
    input.move_right();
    assert_eq!(input.cursor, 1);
}

#[test]
fn clear_empties_the_line() {
    let mut input = typed("secret");
    input.clear();
    assert_eq!(input.value, chars(""));
    assert_eq!(input.cursor, 0);
}

#[test]
fn fuzzy_match_is_an_in_order_case_insensitive_subsequence() {
    assert!(fuzzy_match("cf", "Cafe"));
    assert!(fuzzy_match("CAFE", "cafe"));
    assert!(fuzzy_match("", "anything"));
    assert!(!fuzzy_match("fc", "Cafe"));
    assert!(!fuzzy_match("cafes", "Cafe"));
}

fn row(ssid: &str) -> WifiInfo {
    let entries = vec![NetworkEntry {
        ssid: String::from(ssid),
        auth: AuthAlgorithm::RsnaPsk,
        cipher: CipherAlgorithm::Ccmp,
        bss_kind: BssKind::Infrastructure,
        phy: Some(PhyKind::He),
        signal: 50,
        has_profile: false,
        auto_connect: false,
    }];
    let mut list = wifui::scan::get_wifi_networks(&entries, &Vec::new(), &None);
    list.remove(0)
}

#[test]
fn filter_keeps_matching_rows_in_order() {
    let list = vec![row("Cafe"), row("Office"), row("carport")];
    let hits = filter_networks(&list, "cf");
    assert_eq!(hits.len(), 1);
    assert_eq!(hits[0].ssid, "Cafe");
    let all = filter_networks(&list, "");
    assert_eq!(all.len(), 3);
    let ffe = filter_networks(&list, "ffe");
    assert_eq!(ffe.len(), 1);
    assert_eq!(ffe[0].ssid, "Office");
}

#[test]
fn find_network_index_reports_the_first_match() {
    let list = vec![row("Alpha"), row("Beta"), row("Alpha")];
    assert_eq!(wifui::filter::find_network_index(&list, "Alpha"), Some(0));
    assert_eq!(wifui::filter::find_network_index(&list, "Beta"), Some(1));
    assert_eq!(wifui::filter::find_network_index(&list, "Gamma"), None);
}

#[test]
fn selection_movement_clamps_at_the_ends() {
    assert_eq!(next_index(None, 3), 0);
    assert_eq!(next_index(Some(0), 3), 1);
    assert_eq!(next_index(Some(2), 3), 2);
    assert_eq!(next_index(Some(2), 0), 2);
    assert_eq!(previous_index(None), 0);
    assert_eq!(previous_index(Some(0)), 0);
    assert_eq!(previous_index(Some(2)), 1);
}

#[test]
fn qr_escaping_guards_the_reserved_characters() {
    assert_eq!(escape_special_chars("a;b,c:d\\e"), "a\\;b\\,c\\:d\\\\e");
    assert_eq!(escape_special_chars("plain"), "plain");
}

#[test]
fn qr_payload_for_a_secured_network() {
    let payload = build_qr_payload(
        "My;Net",
        "WPA2-PSK",
        Some(&Secret::new(String::from("p,w:d"))),
    );
    assert_eq!(payload, "WIFI:S:My\\;Net;T:WPA;P:p\\,w\\:d;;");
}

#[test]
fn qr_payload_for_an_open_network() {
    assert_eq!(build_qr_payload("Cafe", "Open", None), "WIFI:S:Cafe;T:nopass;;");
}

#[test]
fn qr_payload_without_a_key_at_hand() {
    assert_eq!(build_qr_payload("Home", "WPA3-SAE", None), "WIFI:S:Home;T:WPA;;");
}

#[test]
fn qr_drawing_is_a_real_rendering() {
    let lines = generate_wifi_qr("Home", "WPA2-PSK", Some(&Secret::new(String::from("pw"))));
    assert!(lines.len() > 10);
    assert!(lines.iter().all(|l| !l.is_empty()));
    assert_ne!(lines[0], "WIFI:S:Home;T:WPA;P:pw;;");
}

#[test]
fn split_lines_handles_every_line_ending() {
    assert_eq!(
        wifui::text::split_lines("a\nb\r\nc\n"),
        vec![String::from("a"), String::from("b"), String::from("c")]
    );
    assert_eq!(wifui::text::split_lines(""), Vec::<String>::new());
    assert_eq!(wifui::text::split_lines("solo"), vec![String::from("solo")]);
    assert_eq!(
        wifui::text::split_lines("x\n\ny"),
        vec![String::from("x"), String::from(""), String::from("y")]
    );
    assert_eq!("a\nb\r\nc\n".lines().count(), 3);
}

#[test]
fn icons_differ_between_the_families() {
    assert_eq!(IconSet::Ascii.saved(), "[S] ");
    assert_eq!(IconSet::Ascii.connected(), " <-");
    assert_eq!(IconSet::Ascii.checkbox(true), "[x]");
    assert_eq!(IconSet::Ascii.checkbox(false), "[ ]");
    assert_eq!(IconSet::Ascii.highlight(), "> ");
    assert_ne!(IconSet::Nerd.saved(), IconSet::Ascii.saved());
    assert_eq!(IconSet::default(), IconSet::Nerd);
}

#[test]
fn loading_frames_cycle() {
    assert_eq!(loading_char(0), loading_char(10));
    assert_ne!(loading_char(0), loading_char(1));
}
