//! The scan engine: turns the raw observations a scan yields — advertised
//! networks, per-access-point radio measurements, and the current connection —
//! into the deduplicated, enriched, sorted network list.
use vstd::prelude::*;
use crate::text::str_eq;

verus! {

/// Authentication algorithm a network advertises.
#[derive(Debug, Clone, Copy, PartialEq, Eq, Structural)]
pub enum AuthAlgorithm {
    OpenSystem,
    SharedKey,
    Wpa,
    WpaPsk,
    WpaNone,
    Rsna,
    RsnaPsk,
    Wpa3,
    Wpa3Sae,
    Other,
}

/// Cipher algorithm a network advertises.
#[derive(Debug, Clone, Copy, PartialEq, Eq, Structural)]
pub enum CipherAlgorithm {
    NoCipher,
    Wep40,
    Tkip,
    Ccmp,
    Wep104,
    WpaUseGroup,
    Gcmp,
    Other,
}

/// Basic service set kind.
#[derive(Debug, Clone, Copy, PartialEq, Eq, Structural)]
pub enum BssKind {
    Infrastructure,
    Independent,
    Any,
    Other,
}

/// Physical-layer standard.
#[derive(Debug, Clone, Copy, PartialEq, Eq, Structural)]
pub enum PhyKind {
    Ofdm,
    Hrdsss,
    Erp,
    Ht,
    Vht,
    He,
    Eht,
    Other,
}

/// The display token for an authentication algorithm.
pub open spec fn auth_name(a: AuthAlgorithm) -> Seq<char> {
    match a {
        AuthAlgorithm::OpenSystem => "Open"@,
        AuthAlgorithm::SharedKey => "Shared"@,
        AuthAlgorithm::Wpa => "WPA"@,
        AuthAlgorithm::WpaPsk => "WPA-PSK"@,
        AuthAlgorithm::WpaNone => "WPA-None"@,
        AuthAlgorithm::Rsna => "WPA2"@,
        AuthAlgorithm::RsnaPsk => "WPA2-PSK"@,
        AuthAlgorithm::Wpa3 => "WPA3"@,
        AuthAlgorithm::Wpa3Sae => "WPA3-SAE"@,
        AuthAlgorithm::Other => "Unknown"@,
    }
}

/// The display token for a cipher algorithm.
pub open spec fn cipher_name(c: CipherAlgorithm) -> Seq<char> {
    match c {
        CipherAlgorithm::NoCipher => "None"@,
        CipherAlgorithm::Wep40 => "WEP"@,
        CipherAlgorithm::Tkip => "TKIP"@,
        CipherAlgorithm::Ccmp => "AES"@,
        CipherAlgorithm::Wep104 => "WEP"@,
        CipherAlgorithm::WpaUseGroup => "WPA-Group"@,
        CipherAlgorithm::Gcmp => "GCMP"@,
        CipherAlgorithm::Other => "Unknown"@,
    }
}

/// The display token for a service-set kind.
pub open spec fn bss_kind_name(b: BssKind) -> Seq<char> {
    match b {
        BssKind::Infrastructure => "Infrastructure"@,
        BssKind::Independent => "Ad-hoc"@,
        BssKind::Any => "Any"@,
        BssKind::Other => "Unknown"@,
    }
}

/// The display token for the first advertised physical standard, or
/// `Unknown` where none was listed.
pub open spec fn phy_name(p: Option<PhyKind>) -> Seq<char> {
    match p {
        Some(PhyKind::Ofdm) => "802.11a"@,
        Some(PhyKind::Hrdsss) => "802.11b"@,
        Some(PhyKind::Erp) => "802.11g"@,
        Some(PhyKind::Ht) => "802.11n (Wi-Fi 4)"@,
        Some(PhyKind::Vht) => "802.11ac (Wi-Fi 5)"@,
        Some(PhyKind::He) => "802.11ax (Wi-Fi 6)"@,
        Some(PhyKind::Eht) => "802.11be (Wi-Fi 7)"@,
        Some(PhyKind::Other) => "Legacy/Unknown"@,
        None => "Unknown"@,
    }
}

/// Renders the authentication token.
pub fn auth_token(a: AuthAlgorithm) -> (r: &'static str)
    ensures
        r@ == auth_name(a),
{
    match a {
        AuthAlgorithm::OpenSystem => "Open",
        AuthAlgorithm::SharedKey => "Shared",
        AuthAlgorithm::Wpa => "WPA",
        AuthAlgorithm::WpaPsk => "WPA-PSK",
        AuthAlgorithm::WpaNone => "WPA-None",
        AuthAlgorithm::Rsna => "WPA2",
        AuthAlgorithm::RsnaPsk => "WPA2-PSK",
        AuthAlgorithm::Wpa3 => "WPA3",
        AuthAlgorithm::Wpa3Sae => "WPA3-SAE",
        AuthAlgorithm::Other => "Unknown",
    }
}

/// Renders the cipher token.
pub fn cipher_token(c: CipherAlgorithm) -> (r: &'static str)
    ensures
        r@ == cipher_name(c),
{
    match c {
        CipherAlgorithm::NoCipher => "None",
        CipherAlgorithm::Wep40 => "WEP",
        CipherAlgorithm::Tkip => "TKIP",
        CipherAlgorithm::Ccmp => "AES",
        CipherAlgorithm::Wep104 => "WEP",
        CipherAlgorithm::WpaUseGroup => "WPA-Group",
        CipherAlgorithm::Gcmp => "GCMP",
        CipherAlgorithm::Other => "Unknown",
    }
}

/// Renders the service-set kind token.
pub fn bss_kind_token(b: BssKind) -> (r: &'static str)
    ensures
        r@ == bss_kind_name(b),
{
    match b {
        BssKind::Infrastructure => "Infrastructure",
        BssKind::Independent => "Ad-hoc",
        BssKind::Any => "Any",
        BssKind::Other => "Unknown",
    }
}

/// Renders the physical-standard token.
pub fn phy_token(p: Option<PhyKind>) -> (r: &'static str)
    ensures
        r@ == phy_name(p),
{
    match p {
        Some(PhyKind::Ofdm) => "802.11a",
        Some(PhyKind::Hrdsss) => "802.11b",
        Some(PhyKind::Erp) => "802.11g",
        Some(PhyKind::Ht) => "802.11n (Wi-Fi 4)",
        Some(PhyKind::Vht) => "802.11ac (Wi-Fi 5)",
        Some(PhyKind::He) => "802.11ax (Wi-Fi 6)",
        Some(PhyKind::Eht) => "802.11be (Wi-Fi 7)",
        Some(PhyKind::Other) => "Legacy/Unknown",
        None => "Unknown",
    }
}

/// The channel number a center frequency (in kHz) belongs to, by band:
/// 2.4 GHz channels count from 2407 MHz in 5 MHz steps, with channel 14
/// apart; 5 GHz channels count from 5000 MHz; 6 GHz channels count from
/// 5950 MHz. Outside the bands the channel is 0.
pub open spec fn channel_for(freq: u32) -> u32 {
    if 2412000 <= freq <= 2484000 {
        if freq == 2484000 {
            14u32
        } else {
            (((freq - 2407000) / 5000) as u32)
        }
    } else if 5000000 <= freq <= 5900000 {
        (((freq - 5000000) / 5000) as u32)
    } else if 5950000 <= freq <= 7125000 {
        (((freq - 5950000) / 5000) as u32)
    } else {
        0u32
    }
}

/// Derives the channel number from a center frequency in kHz.
pub fn channel_from_frequency(freq: u32) -> (r: u32)
    ensures
        r == channel_for(freq),
{
    if 2412000 <= freq && freq <= 2484000 {
        if freq == 2484000 {
            14
        } else {
            (freq - 2407000) / 5000
        }
    } else if 5000000 <= freq && freq <= 5900000 {
        (freq - 5000000) / 5000
    } else if 5950000 <= freq && freq <= 7125000 {
        (freq - 5950000) / 5000
    } else {
        0
    }
}

/// One advertised network, as the native enumeration reports it.
pub struct NetworkEntry {
    pub ssid: String,
    pub auth: AuthAlgorithm,
    pub cipher: CipherAlgorithm,
    pub bss_kind: BssKind,
    /// The first physical standard the entry lists, if any.
    pub phy: Option<PhyKind>,
    /// Signal quality, 0 through 100.
    pub signal: u8,
    /// Whether a stored profile exists for the entry.
    pub has_profile: bool,
    /// Whether that stored profile asks for automatic connection.
    pub auto_connect: bool,
}

/// One per-access-point radio measurement.
pub struct BssObservation {
    pub ssid: String,
    /// Received signal strength, in dBm; higher is stronger.
    pub rssi: i32,
    /// Channel center frequency, in kHz.
    pub center_frequency: u32,
}

/// The connection the adapter currently holds.
pub struct CurrentConnection {
    pub ssid: String,
    /// Transmit rate in kbit/s.
    pub tx_rate_kbps: u32,
}

/// One row of the network list.
pub struct WifiInfo {
    pub ssid: String,
    pub network_type: String,
    pub authentication: String,
    pub encryption: String,
    pub signal: u8,
    pub is_saved: bool,
    pub is_connected: bool,
    pub auto_connect: bool,
    pub phy_type: String,
    pub channel: u32,
    pub frequency: u32,
    pub link_speed: Option<u32>,
}

/// The mathematical model of one network-list row.
pub ghost struct NetRecord {
    pub ssid: Seq<char>,
    pub network_type: Seq<char>,
    pub authentication: Seq<char>,
    pub encryption: Seq<char>,
    pub signal: u8,
    pub is_saved: bool,
    pub is_connected: bool,
    pub auto_connect: bool,
    pub phy_type: Seq<char>,
    pub channel: u32,
    pub frequency: u32,
    pub link_speed: Option<u32>,
}

impl WifiInfo {
    /// A copy of the row.
    pub fn duplicate(&self) -> (r: WifiInfo)
        ensures
            r@ == self@,
    {
        WifiInfo {
            ssid: self.ssid.clone(),
            network_type: self.network_type.clone(),
            authentication: self.authentication.clone(),
            encryption: self.encryption.clone(),
            signal: self.signal,
            is_saved: self.is_saved,
            is_connected: self.is_connected,
            auto_connect: self.auto_connect,
            phy_type: self.phy_type.clone(),
            channel: self.channel,
            frequency: self.frequency,
            link_speed: self.link_speed,
        }
    }
}

impl View for WifiInfo {
    type V = NetRecord;

    open spec fn view(&self) -> NetRecord {
        NetRecord {
            ssid: self.ssid@,
            network_type: self.network_type@,
            authentication: self.authentication@,
            encryption: self.encryption@,
            signal: self.signal,
            is_saved: self.is_saved,
            is_connected: self.is_connected,
            auto_connect: self.auto_connect,
            phy_type: self.phy_type@,
            channel: self.channel,
            frequency: self.frequency,
            link_speed: self.link_speed,
        }
    }
}

/// The views of a list of rows.
pub open spec fn views_of(s: Seq<WifiInfo>) -> Seq<NetRecord> {
    s.map_values(|w: WifiInfo| w@)
}

/// The strongest measurement for a network name: the last one, in report
/// order, whose strength no other matching measurement exceeds.
pub open spec fn best_bss(bss: Seq<BssObservation>, ssid: Seq<char>) -> Option<BssObservation>
    decreases bss.len(),
{
    if bss.len() == 0 {
        None
    } else {
        let rest = best_bss(bss.drop_last(), ssid);
        let x = bss.last();
        if x.ssid@ == ssid {
            match rest {
                None => Some(x),
                Some(y) => if x.rssi >= y.rssi {
                    Some(x)
                } else {
                    Some(y)
                },
            }
        } else {
            rest
        }
    }
}

/// The row one advertised network yields, before merging: channel and
/// frequency from its strongest measurement, link speed and the connected
/// mark from the current connection when the names agree.
pub open spec fn record_for(
    e: NetworkEntry,
    bss: Seq<BssObservation>,
    current: Option<CurrentConnection>,
) -> NetRecord {
    let freq = match best_bss(bss, e.ssid@) {
        Some(b) => b.center_frequency,
        None => 0u32,
    };
    let connected = match current {
        Some(c) => c.ssid@ == e.ssid@,
        None => false,
    };
    let speed = match current {
        Some(c) => if c.ssid@ == e.ssid@ {
            Some((c.tx_rate_kbps / 1000) as u32)
        } else {
            None
        },
        None => None,
    };
    NetRecord {
        ssid: e.ssid@,
        network_type: bss_kind_name(e.bss_kind),
        authentication: auth_name(e.auth),
        encryption: cipher_name(e.cipher),
        signal: e.signal,
        is_saved: e.has_profile,
        is_connected: connected,
        auto_connect: e.auto_connect,
        phy_type: phy_name(e.phy),
        channel: channel_for(freq),
        frequency: freq,
        link_speed: speed,
    }
}

/// The rows of all advertised networks with a non-empty name, in order.
pub open spec fn records_for(
    entries: Seq<NetworkEntry>,
    bss: Seq<BssObservation>,
    current: Option<CurrentConnection>,
) -> Seq<NetRecord>
    decreases entries.len(),
{
    if entries.len() == 0 {
        Seq::empty()
    } else {
        let rest = records_for(entries.drop_last(), bss, current);
        if entries.last().ssid@.len() == 0 {
            rest
        } else {
            rest.push(record_for(entries.last(), bss, current))
        }
    }
}

/// Two rows describe the same network: same name, same authentication.
pub open spec fn same_key(a: NetRecord, b: NetRecord) -> bool {
    a.ssid == b.ssid && a.authentication == b.authentication
}

/// Merging one more observation into an existing row: the stronger signal
/// wins, and the saved and connected marks are the logical or. Every other
/// field keeps the value the first observation gave it.
pub open spec fn combine(a: NetRecord, b: NetRecord) -> NetRecord {
    NetRecord {
        signal: if b.signal > a.signal {
            b.signal
        } else {
            a.signal
        },
        is_saved: a.is_saved || b.is_saved,
        is_connected: a.is_connected || b.is_connected,
        ..a
    }
}

/// The first row of `acc` sharing `x`'s key, if any.
pub open spec fn find_key_idx(acc: Seq<NetRecord>, x: NetRecord) -> Option<int>
    decreases acc.len(),
{
    if acc.len() == 0 {
        None
    } else if same_key(acc[0], x) {
        Some(0)
    } else {
        match find_key_idx(acc.skip(1), x) {
            None => None,
            Some(i) => Some(i + 1),
        }
    }
}

/// The rows merged by key, in first-seen order: a row whose key was seen
/// before folds into the existing row, a new key appends.
pub open spec fn merge_records(rs: Seq<NetRecord>) -> Seq<NetRecord>
    decreases rs.len(),
{
    if rs.len() == 0 {
        Seq::empty()
    } else {
        let acc = merge_records(rs.drop_last());
        let x = rs.last();
        match find_key_idx(acc, x) {
            None => acc.push(x),
            Some(i) => acc.update(i, combine(acc[i], x)),
        }
    }
}

/// A first matching key (one with no match before it) is what `find_key_idx`
/// returns.
proof fn lemma_first_key_is_find(acc: Seq<NetRecord>, x: NetRecord, p: int)
    requires
        0 <= p < acc.len(),
        same_key(acc[p], x),
        forall|j: int| 0 <= j < p ==> !same_key(acc[j], x),
    ensures
        find_key_idx(acc, x) == Some(p),
    decreases acc.len(),
{
    if p > 0 {
        assert(acc.skip(1)[p - 1] == acc[p]);
        assert forall|j: int| 0 <= j < p - 1 implies !same_key(acc.skip(1)[j], x) by {
            assert(acc.skip(1)[j] == acc[j + 1]);
        }
        lemma_first_key_is_find(acc.skip(1), x, p - 1);
    }
}

/// Where no row matches the key, `find_key_idx` finds nothing.
proof fn lemma_no_key_no_find(acc: Seq<NetRecord>, x: NetRecord)
    requires
        forall|j: int| 0 <= j < acc.len() ==> !same_key(acc[j], x),
    ensures
        find_key_idx(acc, x) is None,
    decreases acc.len(),
{
    if acc.len() > 0 {
        assert forall|j: int| 0 <= j < acc.len() - 1 implies !same_key(acc.skip(1)[j], x) by {
            assert(acc.skip(1)[j] == acc[j + 1]);
        }
        lemma_no_key_no_find(acc.skip(1), x);
    }
}

/// What `find_key_idx` returns: the first matching row where one exists, and
/// nothing where none does.
proof fn lemma_find_key_props(acc: Seq<NetRecord>, x: NetRecord)
    ensures
        match find_key_idx(acc, x) {
            None => forall|j: int| 0 <= j < acc.len() ==> !same_key(acc[j], x),
            Some(i) => 0 <= i < acc.len() && same_key(acc[i], x),
        },
    decreases acc.len(),
{
    if acc.len() > 0 && !same_key(acc[0], x) {
        lemma_find_key_props(acc.skip(1), x);
        match find_key_idx(acc.skip(1), x) {
            None => {
                assert forall|j: int| 0 <= j < acc.len() implies !same_key(acc[j], x) by {
                    if j > 0 {
                        assert(acc.skip(1)[j - 1] == acc[j]);
                    }
                }
            },
            Some(i) => {
                assert(acc.skip(1)[i] == acc[i + 1]);
            },
        }
    }
}

/// No two rows of the merged list describe the same network: the pair of
/// name and authentication is a unique key.
pub open spec fn distinct_keys(rs: Seq<NetRecord>) -> bool {
    forall|i: int, j: int| 0 <= i < j < rs.len() ==> !same_key(rs[i], rs[j])
}

/// Merging deduplicates: however the observations repeat, the merged list
/// holds each (name, authentication) key once.
pub proof fn lemma_merge_distinct_keys(rs: Seq<NetRecord>)
    ensures
        distinct_keys(merge_records(rs)),
    decreases rs.len(),
{
    if rs.len() > 0 {
        lemma_merge_distinct_keys(rs.drop_last());
        let acc = merge_records(rs.drop_last());
        let x = rs.last();
        lemma_find_key_props(acc, x);
        match find_key_idx(acc, x) {
            None => {
                let out = acc.push(x);
                assert forall|i: int, j: int| 0 <= i < j < out.len() implies !same_key(
                    out[i],
                    out[j],
                ) by {
                    if j < acc.len() {
                        assert(out[i] == acc[i] && out[j] == acc[j]);
                    } else {
                        assert(out[i] == acc[i] && out[j] == x);
                    }
                }
            },
            Some(k) => {
                let out = acc.update(k, combine(acc[k], x));
                assert forall|i: int, j: int| 0 <= i < j < out.len() implies !same_key(
                    out[i],
                    out[j],
                ) by {
                    if i == k {
                        assert(out[j] == acc[j]);
                        assert(same_key(out[i], acc[k]));
                        assert(!same_key(acc[k], acc[j]));
                    } else if j == k {
                        assert(out[i] == acc[i]);
                        assert(same_key(out[j], acc[k]));
                        assert(!same_key(acc[i], acc[k]));
                    } else {
                        assert(out[i] == acc[i] && out[j] == acc[j]);
                    }
                }
            },
        }
    }
}

/// The strongest signal any observation of `key`'s network reports.
pub open spec fn max_signal_for(rs: Seq<NetRecord>, key: NetRecord) -> u8
    decreases rs.len(),
{
    if rs.len() == 0 {
        0u8
    } else {
        let m = max_signal_for(rs.drop_last(), key);
        if same_key(rs.last(), key) && rs.last().signal > m {
            rs.last().signal
        } else {
            m
        }
    }
}

/// Whether any observation of `key`'s network is marked saved.
pub open spec fn any_saved_for(rs: Seq<NetRecord>, key: NetRecord) -> bool
    decreases rs.len(),
{
    if rs.len() == 0 {
        false
    } else {
        any_saved_for(rs.drop_last(), key) || (same_key(rs.last(), key) && rs.last().is_saved)
    }
}

/// Whether any observation of `key`'s network is marked connected.
pub open spec fn any_connected_for(rs: Seq<NetRecord>, key: NetRecord) -> bool
    decreases rs.len(),
{
    if rs.len() == 0 {
        false
    } else {
        any_connected_for(rs.drop_last(), key) || (same_key(rs.last(), key)
            && rs.last().is_connected)
    }
}

/// Whether some row describes `key`'s network.
pub open spec fn key_present(rs: Seq<NetRecord>, key: NetRecord) -> bool {
    exists|i: int| 0 <= i < rs.len() && same_key(rs[i], key)
}

/// The aggregates ignore which representative of a key names the network.
proof fn lemma_aggregates_respect_key(rs: Seq<NetRecord>, k1: NetRecord, k2: NetRecord)
    requires
        same_key(k1, k2),
    ensures
        max_signal_for(rs, k1) == max_signal_for(rs, k2),
        any_saved_for(rs, k1) == any_saved_for(rs, k2),
        any_connected_for(rs, k1) == any_connected_for(rs, k2),
    decreases rs.len(),
{
    if rs.len() > 0 {
        lemma_aggregates_respect_key(rs.drop_last(), k1, k2);
    }
}

/// For a network no observation describes, the aggregates are empty.
proof fn lemma_absent_key_aggregates(rs: Seq<NetRecord>, key: NetRecord)
    requires
        !key_present(rs, key),
    ensures
        max_signal_for(rs, key) == 0,
        !any_saved_for(rs, key),
        !any_connected_for(rs, key),
    decreases rs.len(),
{
    if rs.len() > 0 {
        assert(!same_key(rs.last(), key)) by {
            assert(rs[rs.len() - 1] == rs.last());
        }
        assert forall|i: int| !(0 <= i < rs.drop_last().len() && same_key(
            rs.drop_last()[i],
            key,
        )) by {
            if 0 <= i < rs.len() - 1 {
                assert(rs.drop_last()[i] == rs[i]);
            }
        }
        lemma_absent_key_aggregates(rs.drop_last(), key);
    }
}

/// What merging means, row by row: every merged row describes a network some
/// observation reported, every reported network has its merged row, and each
/// merged row carries the strongest signal and the or of the saved and
/// connected marks over all observations of its network.
pub proof fn lemma_merge_aggregates(rs: Seq<NetRecord>)
    ensures
        forall|i: int|
            0 <= i < merge_records(rs).len() ==> {
                &&& (#[trigger] merge_records(rs)[i]).signal == max_signal_for(
                    rs,
                    merge_records(rs)[i],
                )
                &&& merge_records(rs)[i].is_saved == any_saved_for(rs, merge_records(rs)[i])
                &&& merge_records(rs)[i].is_connected == any_connected_for(
                    rs,
                    merge_records(rs)[i],
                )
                &&& key_present(rs, merge_records(rs)[i])
            },
        forall|j: int| 0 <= j < rs.len() ==> key_present(merge_records(rs), #[trigger] rs[j]),
    decreases rs.len(),
{
    if rs.len() > 0 {
        let prior = rs.drop_last();
        let x = rs.last();
        let acc = merge_records(prior);
        let out = merge_records(rs);
        lemma_merge_aggregates(prior);
        lemma_merge_distinct_keys(prior);
        lemma_find_key_props(acc, x);
        assert(rs[rs.len() - 1] == x);
        match find_key_idx(acc, x) {
            None => {
                assert(out == acc.push(x));
                assert(!key_present(prior, x)) by {
                    if key_present(prior, x) {
                        let w = choose|w: int| 0 <= w < prior.len() && same_key(prior[w], x);
                        assert(rs[w] == prior[w]);
                        assert(key_present(acc, prior[w]));
                        let a = choose|a: int| 0 <= a < acc.len() && same_key(acc[a], prior[w]);
                        assert(same_key(acc[a], x));
                    }
                }
                lemma_absent_key_aggregates(prior, x);
                assert forall|i: int| 0 <= i < out.len() implies {
                    &&& (#[trigger] out[i]).signal == max_signal_for(rs, out[i])
                    &&& out[i].is_saved == any_saved_for(rs, out[i])
                    &&& out[i].is_connected == any_connected_for(rs, out[i])
                    &&& key_present(rs, out[i])
                } by {
                    if i < acc.len() {
                        assert(out[i] == acc[i]);
                        assert(!same_key(x, acc[i]));
                        assert(key_present(prior, acc[i]));
                        let w = choose|w: int| 0 <= w < prior.len() && same_key(prior[w], acc[i]);
                        assert(rs[w] == prior[w]);
                        assert(key_present(rs, acc[i]));
                    } else {
                        assert(out[i] == x);
                        lemma_aggregates_respect_key(prior, x, x);
                        assert(max_signal_for(rs, x) == x.signal);
                        assert(key_present(rs, x));
                    }
                }
                assert forall|j: int| 0 <= j < rs.len() implies key_present(
                    out,
                    #[trigger] rs[j],
                ) by {
                    if j < rs.len() - 1 {
                        assert(rs[j] == prior[j]);
                        assert(key_present(acc, prior[j]));
                        let a = choose|a: int| 0 <= a < acc.len() && same_key(acc[a], prior[j]);
                        assert(out[a] == acc[a]);
                    } else {
                        assert(same_key(out[out.len() - 1], rs[j]));
                    }
                }
            },
            Some(k) => {
                let m = combine(acc[k], x);
                assert(out == acc.update(k, m));
                assert(same_key(m, acc[k]));
                assert(same_key(x, m));
                lemma_aggregates_respect_key(prior, m, acc[k]);
                assert forall|i: int| 0 <= i < out.len() implies {
                    &&& (#[trigger] out[i]).signal == max_signal_for(rs, out[i])
                    &&& out[i].is_saved == any_saved_for(rs, out[i])
                    &&& out[i].is_connected == any_connected_for(rs, out[i])
                    &&& key_present(rs, out[i])
                } by {
                    if i == k {
                        assert(out[i] == m);
                        assert(max_signal_for(rs, m) == if x.signal > max_signal_for(prior, m) {
                            x.signal
                        } else {
                            max_signal_for(prior, m)
                        });
                        assert(max_signal_for(prior, m) == acc[k].signal);
                        assert(key_present(rs, m));
                    } else {
                        assert(out[i] == acc[i]);
                        assert(!same_key(acc[i], acc[k])) by {
                            if i < k {
                                assert(!same_key(acc[i], acc[k]));
                            } else {
                                assert(!same_key(acc[k], acc[i]));
                            }
                        }
                        assert(!same_key(x, acc[i])) by {
                            if same_key(x, acc[i]) {
                                assert(same_key(acc[k], acc[i]));
                            }
                        }
                        assert(key_present(prior, acc[i]));
                        let w = choose|w: int| 0 <= w < prior.len() && same_key(prior[w], acc[i]);
                        assert(rs[w] == prior[w]);
                        assert(key_present(rs, acc[i]));
                    }
                }
                assert forall|j: int| 0 <= j < rs.len() implies key_present(
                    out,
                    #[trigger] rs[j],
                ) by {
                    if j < rs.len() - 1 {
                        assert(rs[j] == prior[j]);
                        assert(key_present(acc, prior[j]));
                        let a = choose|a: int| 0 <= a < acc.len() && same_key(acc[a], prior[j]);
                        if a == k {
                            assert(same_key(out[k], rs[j]));
                        } else {
                            assert(out[a] == acc[a]);
                        }
                    } else {
                        assert(same_key(out[k], rs[j]));
                    }
                }
            },
        }
    }
}

/// Merging two observations of the same network yields one row whose signal
/// is the larger of the two and whose saved and connected marks are the
/// logical or of the two.
pub proof fn lemma_merge_two_observations(a: NetRecord, b: NetRecord)
    requires
        same_key(a, b),
    ensures
        merge_records(seq![a, b]).len() == 1,
        merge_records(seq![a, b])[0].signal == if a.signal >= b.signal {
            a.signal
        } else {
            b.signal
        },
        merge_records(seq![a, b])[0].is_saved == (a.is_saved || b.is_saved),
        merge_records(seq![a, b])[0].is_connected == (a.is_connected || b.is_connected),
{
    let two = seq![a, b];
    assert(two.drop_last() =~= seq![a]);
    assert(seq![a].drop_last() =~= Seq::<NetRecord>::empty());
    assert(merge_records(Seq::<NetRecord>::empty()) == Seq::<NetRecord>::empty());
    assert(find_key_idx(Seq::<NetRecord>::empty(), a) is None);
    assert(merge_records(seq![a]) =~= Seq::<NetRecord>::empty().push(a));
    assert(merge_records(seq![a]) =~= seq![a]);
    assert(find_key_idx(seq![a], b) == Some(0int));
    assert(merge_records(two) =~= seq![a].update(0, combine(a, b)));
}

/// Views commute with push.
proof fn lemma_views_push(s: Seq<WifiInfo>, x: WifiInfo)
    ensures
        views_of(s.push(x)) =~= views_of(s).push(x@),
{
}

/// Views commute with removal.
proof fn lemma_views_remove(s: Seq<WifiInfo>, i: int)
    requires
        0 <= i < s.len(),
    ensures
        views_of(s.remove(i)) =~= views_of(s).remove(i),
{
}

/// Views commute with insertion.
proof fn lemma_views_insert(s: Seq<WifiInfo>, i: int, x: WifiInfo)
    requires
        0 <= i <= s.len(),
    ensures
        views_of(s.insert(i, x)) =~= views_of(s).insert(i, x@),
{
}

/// Builds the row for one advertised network.
fn build_record(
    e: &NetworkEntry,
    bss: &Vec<BssObservation>,
    current: &Option<CurrentConnection>,
) -> (out: WifiInfo)
    ensures
        out@ == record_for(*e, bss@, *current),
{
    let mut best: Option<usize> = None;
    let mut k: usize = 0;
    while k < bss.len()
        invariant
            k <= bss@.len(),
            match best {
                Some(b) => {
                    &&& b < k
                    &&& best_bss(bss@.subrange(0, k as int), e.ssid@) == Some(bss@[b as int])
                },
                None => best_bss(bss@.subrange(0, k as int), e.ssid@) is None,
            },
        decreases bss@.len() - k,
    {
        proof {
            assert(bss@.subrange(0, k + 1).drop_last() =~= bss@.subrange(0, k as int));
            assert(bss@.subrange(0, k + 1).last() == bss@[k as int]);
        }
        if str_eq(bss[k].ssid.as_str(), e.ssid.as_str()) {
            let take = match best {
                Some(b) => bss[k].rssi >= bss[b].rssi,
                None => true,
            };
            if take {
                best = Some(k);
            }
        }
        k += 1;
    }
    proof {
        assert(bss@.subrange(0, bss@.len() as int) =~= bss@);
    }
    let freq = match best {
        Some(b) => bss[b].center_frequency,
        None => 0,
    };
    let mut is_connected = false;
    let mut link_speed: Option<u32> = None;
    match current {
        Some(c) => {
            if str_eq(c.ssid.as_str(), e.ssid.as_str()) {
                is_connected = true;
                link_speed = Some(c.tx_rate_kbps / 1000);
            }
        },
        None => {},
    }
    WifiInfo {
        ssid: e.ssid.clone(),
        network_type: String::from_str(bss_kind_token(e.bss_kind)),
        authentication: String::from_str(auth_token(e.auth)),
        encryption: String::from_str(cipher_token(e.cipher)),
        signal: e.signal,
        is_saved: e.has_profile,
        is_connected,
        auto_connect: e.auto_connect,
        phy_type: String::from_str(phy_token(e.phy)),
        channel: channel_from_frequency(freq),
        frequency: freq,
        link_speed,
    }
}

/// Folds one row into the merged list: an existing row with the same key
/// takes the stronger signal and the or of the marks; a new key appends.
fn upsert_record(out: &mut Vec<WifiInfo>, rec: WifiInfo)
    ensures
        views_of(final(out)@) == match find_key_idx(views_of(old(out)@), rec@) {
            None => views_of(old(out)@).push(rec@),
            Some(i) => views_of(old(out)@).update(i, combine(views_of(old(out)@)[i], rec@)),
        },
{
    let ghost vs = views_of(out@);
    let mut t: usize = 0;
    let mut found: Option<usize> = None;
    while t < out.len() && found.is_none()
        invariant
            t <= out@.len(),
            vs == views_of(out@),
            vs.len() == out@.len(),
            match found {
                Some(f) => f == t && t < out@.len() && same_key(vs[f as int], rec@) && forall|
                    j: int,
                |
                    0 <= j < f ==> !same_key(vs[j], rec@),
                None => forall|j: int| 0 <= j < t ==> !same_key(vs[j], rec@),
            },
        decreases
                out@.len() - t + (if found is None {
                    1int
                } else {
                    0int
                }),
    {
        let matches_key = str_eq(out[t].ssid.as_str(), rec.ssid.as_str()) && str_eq(
            out[t].authentication.as_str(),
            rec.authentication.as_str(),
        );
        if matches_key {
            found = Some(t);
        } else {
            t += 1;
        }
    }
    match found {
        Some(i) => {
            proof {
                lemma_first_key_is_find(vs, rec@, i as int);
            }
            let mut row = out.remove(i);
            if rec.signal > row.signal {
                row.signal = rec.signal;
            }
            if rec.is_saved {
                row.is_saved = true;
            }
            if rec.is_connected {
                row.is_connected = true;
            }
            out.insert(i, row);
            proof {
                lemma_views_remove(old(out)@, i as int);
                lemma_views_insert(old(out)@.remove(i as int), i as int, out@[i as int]);
                assert(views_of(out@) =~= vs.update(i as int, combine(vs[i as int], rec@)));
            }
        },
        None => {
            proof {
                lemma_no_key_no_find(vs, rec@);
            }
            out.push(rec);
            proof {
                lemma_views_push(old(out)@, out@.last());
                assert(views_of(out@) =~= vs.push(out@.last()@));
            }
        },
    }
}

/// One row belongs at or before another: connected rows first, then saved
/// rows, then the stronger signal.
pub open spec fn rank_before(a: NetRecord, b: NetRecord) -> bool {
    if a.is_connected != b.is_connected {
        a.is_connected
    } else if a.is_saved != b.is_saved {
        a.is_saved
    } else {
        a.signal >= b.signal
    }
}

/// The list is sorted by rank.
pub open spec fn sorted_by_rank(s: Seq<NetRecord>) -> bool {
    forall|i: int, j: int| 0 <= i < j < s.len() ==> rank_before(s[i], s[j])
}

/// Compares two rows by rank.
fn rank_le(a: &WifiInfo, b: &WifiInfo) -> (r: bool)
    ensures
        r == rank_before(a@, b@),
{
    if a.is_connected != b.is_connected {
        a.is_connected
    } else if a.is_saved != b.is_saved {
        a.is_saved
    } else {
        a.signal >= b.signal
    }
}

/// Sorts the list by rank: connected first, then saved, then signal strength
/// descending. Keeps exactly the same rows.
fn sort_records(v: &mut Vec<WifiInfo>)
    ensures
        sorted_by_rank(views_of(final(v)@)),
        views_of(final(v)@).to_multiset() == views_of(old(v)@).to_multiset(),
        final(v)@.len() == old(v)@.len(),
{
    let ghost orig = views_of(v@);
    if v.len() <= 1 {
        return;
    }
    let mut i: usize = 1;
    while i < v.len()
        invariant
            1 <= i <= v@.len(),
            v@.len() == orig.len(),
            views_of(v@).to_multiset() == orig.to_multiset(),
            forall|a: int, b: int|
                0 <= a < b < i ==> rank_before(views_of(v@)[a], views_of(v@)[b]),
        decreases v@.len() - i,
    {
        let ghost s0 = v@;
        let ghost vs0 = views_of(s0);
        let x = v.remove(i);
        proof {
            lemma_views_remove(s0, i as int);
            assert(x@ == vs0[i as int]);
            assert(vs0.contains(vs0[i as int]));
            vstd::seq_lib::to_multiset_contains(vs0, x@);
            assert(vs0.to_multiset().count(x@) > 0);
        }
        let ghost s1 = v@;
        let ghost vs1 = views_of(s1);
        let mut pos: usize = 0;
        while pos < i && rank_le(&v[pos], &x)
            invariant
                pos <= i,
                i < s0.len(),
                v@ == s1,
                s1 == s0.remove(i as int),
                vs1 == views_of(s1),
                forall|a: int| 0 <= a < pos ==> rank_before(vs1[a], x@),
            decreases i - pos,
        {
            pos += 1;
        }
        v.insert(pos, x);
        proof {
            lemma_views_insert(s1, pos as int, x);
            let vs2 = views_of(v@);
            assert(vs2 =~= vs1.insert(pos as int, x@));
            vstd::seq_lib::to_multiset_remove(vs0, i as int);
            assert(vs1.to_multiset() == vs0.to_multiset().remove(x@));
            vstd::seq_lib::to_multiset_insert(vs1, pos as int, x@);
            assert(vs2.to_multiset() == vs1.to_multiset().insert(x@));
            assert(vs0.to_multiset().remove(x@).insert(x@) =~= vs0.to_multiset());
            assert(vs2.to_multiset() == vs0.to_multiset());
            assert forall|a: int, b: int|
                0 <= a < b < i + 1 implies rank_before(vs2[a], vs2[b]) by {
                if b < pos {
                    assert(vs2[a] == vs0[a] && vs2[b] == vs0[b]);
                } else if b == pos {
                    assert(vs2[b] == x@);
                    assert(rank_before(vs1[a], x@));
                } else {
                    assert(vs2[b] == vs1[b - 1] && vs1[b - 1] == vs0[b - 1]);
                    if pos < i {
                        assert(!rank_before(vs1[pos as int], x@));
                        assert(rank_before(x@, vs1[pos as int]));
                    }
                    if a < pos {
                        assert(vs2[a] == vs0[a]);
                        assert(rank_before(vs0[a], vs0[b - 1]));
                    } else if a == pos {
                        assert(vs2[a] == x@);
                        if b - 1 == pos {
                            assert(rank_before(x@, vs1[pos as int]));
                        } else {
                            assert(rank_before(vs0[pos as int], vs0[b - 1]));
                            assert(rank_before(x@, vs1[pos as int]));
                        }
                    } else {
                        assert(vs2[a] == vs1[a - 1] && vs1[a - 1] == vs0[a - 1]);
                        assert(rank_before(vs0[a - 1], vs0[b - 1]));
                    }
                }
            }
        }
        i += 1;
    }
}

/// Produces the network list from one round of raw observations: every
/// advertised network with a name becomes a row enriched from its strongest
/// measurement and the current connection; rows sharing (name,
/// authentication) merge, the stronger signal and the or of the saved and
/// connected marks winning; and the result is sorted with connected rows
/// first, then saved rows, then by signal strength descending.
pub fn get_wifi_networks(
    entries: &Vec<NetworkEntry>,
    bss: &Vec<BssObservation>,
    current: &Option<CurrentConnection>,
) -> (out: Vec<WifiInfo>)
    ensures
        views_of(out@).to_multiset() == merge_records(
            records_for(entries@, bss@, *current),
        ).to_multiset(),
        sorted_by_rank(views_of(out@)),
{
    let mut merged: Vec<WifiInfo> = Vec::new();
    let mut i: usize = 0;
    proof {
        assert(entries@.subrange(0, 0) =~= Seq::<NetworkEntry>::empty());
        assert(views_of(merged@) =~= Seq::<NetRecord>::empty());
        assert(merge_records(records_for(entries@.subrange(0, 0), bss@, *current))
            =~= Seq::<NetRecord>::empty());
    }
    while i < entries.len()
        invariant
            i <= entries@.len(),
            views_of(merged@) == merge_records(
                records_for(entries@.subrange(0, i as int), bss@, *current),
            ),
        decreases entries@.len() - i,
    {
        let ghost prefix = entries@.subrange(0, i as int);
        let ghost prefix2 = entries@.subrange(0, i + 1);
        proof {
            assert(prefix2.drop_last() =~= prefix);
            assert(prefix2.last() == entries@[i as int]);
        }
        let entry = &entries[i];
        if entry.ssid.as_str().unicode_len() > 0 {
            let rec = build_record(entry, bss, current);
            let ghost before = views_of(merged@);
            upsert_record(&mut merged, rec);
            proof {
                let rs = records_for(prefix, bss@, *current);
                let rs2 = records_for(prefix2, bss@, *current);
                assert(rs2 == rs.push(record_for(entries@[i as int], bss@, *current)));
                assert(rs2.drop_last() =~= rs);
                assert(rs2.last() == record_for(entries@[i as int], bss@, *current));
                assert(merge_records(rs2) == views_of(merged@));
            }
        }
        i += 1;
    }
    proof {
        assert(entries@.subrange(0, entries@.len() as int) =~= entries@);
    }
    sort_records(&mut merged);
    merged
}

} // verus!
