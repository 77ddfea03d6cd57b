//! The credential-profile document codec: building the fixed-schema XML
//! document for a network, reading and rewriting its connection mode, and
//! extracting a stored key.
use vstd::prelude::*;
use crate::error::WifiError;
use crate::text::{
    contains_str, contains_sub, escape_xml_text, find_str, find_sub, lemma_find_first,
    lemma_shield_literal, occurs_at, replace_str, replace_sub, shielded, str_eq, str_views,
    unescape_xml_text, xml_escape, xml_unescape,
};

verus! {

/// A secret string, kept in a private field so that nothing renders it by
/// accident; it leaves only through `expose_secret`.
pub struct Secret {
    value: String,
}

impl View for Secret {
    type V = Seq<char>;

    closed spec fn view(&self) -> Seq<char> {
        self.value@
    }
}

impl Secret {
    /// Wraps a secret value.
    pub fn new(value: String) -> (s: Secret)
        ensures
            s@ == value@,
    {
        Secret { value }
    }

    /// Hands the wrapped value out, deliberately and visibly.
    pub fn expose_secret(&self) -> (r: &str)
        ensures
            r@ == self@,
    {
        self.value.as_str()
    }
}

/// The names of `raw` with the NUL padding of their fixed-size native fields
/// stripped, the empty ones dropped.
pub open spec fn cleaned_names(raw: Seq<Seq<char>>) -> Seq<Seq<char>>
    decreases raw.len(),
{
    if raw.len() == 0 {
        Seq::empty()
    } else {
        let rest = cleaned_names(raw.drop_last());
        let t = crate::text::trim_nuls(raw.last());
        if t.len() == 0 {
            rest
        } else {
            rest.push(t)
        }
    }
}

/// Cleans a list of stored profile names as the native store hands them out:
/// NUL padding stripped, empty names dropped.
pub fn clean_profile_names(raw: &Vec<String>) -> (out: Vec<String>)
    ensures
        str_views(out@) == cleaned_names(str_views(raw@)),
{
    let mut out: Vec<String> = Vec::new();
    let mut i: usize = 0;
    proof {
        assert(str_views(raw@.subrange(0, 0)) =~= Seq::<Seq<char>>::empty());
        assert(cleaned_names(Seq::<Seq<char>>::empty()) =~= Seq::<Seq<char>>::empty());
        assert(str_views(out@) =~= Seq::<Seq<char>>::empty());
    }
    while i < raw.len()
        invariant
            i <= raw@.len(),
            str_views(out@) == cleaned_names(str_views(raw@.subrange(0, i as int))),
        decreases raw@.len() - i,
    {
        let ghost pv = str_views(raw@.subrange(0, i as int));
        let ghost pv2 = str_views(raw@.subrange(0, i + 1));
        proof {
            assert(pv2 =~= pv.push(raw@[i as int]@));
            assert(pv2.drop_last() =~= pv);
        }
        let trimmed = crate::text::trim_nul_chars(raw[i].as_str());
        if trimmed.as_str().unicode_len() > 0 {
            out.push(trimmed);
            proof {
                assert(str_views(out@) =~= cleaned_names(pv).push(
                    crate::text::trim_nuls(raw@[i as int]@),
                ));
            }
        }
        i += 1;
    }
    proof {
        assert(raw@.subrange(0, raw@.len() as int) =~= raw@);
    }
    out
}

/// The authentication token written into the document for a given abstract
/// security descriptor and cipher.
pub open spec fn wire_auth_token(auth: Seq<char>, cipher: Seq<char>) -> Seq<char> {
    if auth == "WPA3-SAE"@ {
        "WPA3SAE"@
    } else if auth == "WPA3ENT"@ {
        "WPA3ENT"@
    } else if auth == "WPA3ENT192"@ {
        "WPA3ENT192"@
    } else if auth == "WPA3"@ {
        "WPA3ENT192"@
    } else if auth == "WPA2-PSK"@ {
        "WPA2PSK"@
    } else if auth == "WPA2"@ {
        "WPA2"@
    } else if auth == "WPA-PSK"@ {
        "WPAPSK"@
    } else if auth == "WPA"@ {
        "WPA"@
    } else if auth == "Shared"@ || auth == "WEP"@ {
        "shared"@
    } else if auth == "Open"@ || auth == "open"@ {
        "open"@
    } else {
        "WPA2PSK"@
    }
}

/// The encryption token written into the document.
pub open spec fn wire_cipher_token(auth: Seq<char>, cipher: Seq<char>) -> Seq<char> {
    if cipher == "GCMP"@ {
        "GCMP"@
    } else if auth == "WPA-PSK"@ || auth == "WPA"@ {
        if cipher == "AES"@ {
            "AES"@
        } else {
            "TKIP"@
        }
    } else if auth == "Shared"@ || auth == "WEP"@ {
        "WEP"@
    } else if auth == "Open"@ || auth == "open"@ {
        "none"@
    } else {
        "AES"@
    }
}

/// Maps an abstract security descriptor and cipher to the two wire tokens.
pub fn wire_tokens(auth: &str, cipher: &str) -> (r: (&'static str, &'static str))
    ensures
        r.0@ == wire_auth_token(auth@, cipher@),
        r.1@ == wire_cipher_token(auth@, cipher@),
{
    let gcmp = str_eq(cipher, "GCMP");
    let aes = str_eq(cipher, "AES");
    let a = if str_eq(auth, "WPA3-SAE") {
        "WPA3SAE"
    } else if str_eq(auth, "WPA3ENT") {
        "WPA3ENT"
    } else if str_eq(auth, "WPA3ENT192") {
        "WPA3ENT192"
    } else if str_eq(auth, "WPA3") {
        "WPA3ENT192"
    } else if str_eq(auth, "WPA2-PSK") {
        "WPA2PSK"
    } else if str_eq(auth, "WPA2") {
        "WPA2"
    } else if str_eq(auth, "WPA-PSK") {
        "WPAPSK"
    } else if str_eq(auth, "WPA") {
        "WPA"
    } else if str_eq(auth, "Shared") || str_eq(auth, "WEP") {
        "shared"
    } else if str_eq(auth, "Open") || str_eq(auth, "open") {
        "open"
    } else {
        "WPA2PSK"
    };
    let c = if gcmp {
        "GCMP"
    } else if str_eq(auth, "WPA-PSK") || str_eq(auth, "WPA") {
        if aes {
            "AES"
        } else {
            "TKIP"
        }
    } else if str_eq(auth, "Shared") || str_eq(auth, "WEP") {
        "WEP"
    } else if str_eq(auth, "Open") || str_eq(auth, "open") {
        "none"
    } else {
        "AES"
    };
    (a, c)
}

/// Document text up to the first escaped network name.
pub open spec fn seg_head() -> Seq<char> {
    "<?xml version=\"1.0\"?><WLANProfile xmlns=\"http://www.microsoft.com/networking/WLAN/profile/v1\"><name>"@
}

/// Document text between the two escaped network names.
pub open spec fn seg_mid() -> Seq<char> {
    "</name><SSIDConfig><SSID><name>"@
}

/// Document text closing the name and its enclosing element.
pub open spec fn seg_close_ssid() -> Seq<char> {
    "</name></SSID>"@
}

/// The element marking a hidden network.
pub open spec fn seg_hidden() -> Seq<char> {
    "<nonBroadcast>true</nonBroadcast>"@
}

/// Document text from the end of the name section to the connection mode.
pub open spec fn seg_conn_type() -> Seq<char> {
    "</SSIDConfig><connectionType>ESS</connectionType><connectionMode>"@
}

/// Document text from the connection mode to the authentication token.
pub open spec fn seg_auth_open() -> Seq<char> {
    "</connectionMode><MSM><security><authEncryption><authentication>"@
}

/// Document text between the authentication and encryption tokens.
pub open spec fn seg_auth_close() -> Seq<char> {
    "</authentication><encryption>"@
}

/// Document text closing the encryption section.
pub open spec fn seg_enc_close() -> Seq<char> {
    "</encryption><useOneX>false</useOneX></authEncryption>"@
}

/// The shared-key section up to, but not including, the key element.
pub open spec fn seg_key_prefix() -> Seq<char> {
    "<sharedKey><keyType>passPhrase</keyType><protected>false</protected>"@
}

/// The tag opening the key element.
pub open spec fn key_open_token() -> Seq<char> {
    "<keyMaterial>"@
}

/// The tag closing the key element.
pub open spec fn key_close_token() -> Seq<char> {
    "</keyMaterial>"@
}

/// The tag closing the shared-key section.
pub open spec fn seg_key_suffix() -> Seq<char> {
    "</sharedKey>"@
}

/// Document text closing the security sections and the root element.
pub open spec fn seg_tail() -> Seq<char> {
    "</security></MSM></WLANProfile>"@
}

/// The whole credential-profile document for a network. `auth` and `cipher`
/// are the wire tokens; the name and the key are escaped; the connection mode
/// is `auto` exactly when a key is supplied — secured manual additions are
/// remembered, open ones are not, mirroring how the native store behaves.
pub open spec fn profile_document(
    ssid: Seq<char>,
    auth: Seq<char>,
    cipher: Seq<char>,
    key: Option<Seq<char>>,
    hidden: bool,
) -> Seq<char> {
    seg_head() + xml_escape(ssid) + seg_mid() + xml_escape(ssid) + seg_close_ssid() + (if hidden {
        seg_hidden()
    } else {
        Seq::empty()
    }) + seg_conn_type() + (if key is Some {
        "auto"@
    } else {
        "manual"@
    }) + seg_auth_open() + auth + seg_auth_close() + cipher + seg_enc_close() + (match key {
        Some(k) => seg_key_prefix() + key_open_token() + xml_escape(k) + key_close_token()
            + seg_key_suffix(),
        None => Seq::empty(),
    }) + seg_tail()
}

/// The view of an optional secret.
pub open spec fn key_view(password: Option<&Secret>) -> Option<Seq<char>> {
    match password {
        Some(p) => Some(p@),
        None => None,
    }
}

/// Builds the credential-profile document for a network, escaping the
/// markup-reserved characters of the name and the key.
pub fn create_profile_xml(
    ssid: &str,
    auth: &str,
    cipher: &str,
    password: Option<&Secret>,
    hidden: bool,
) -> (out: String)
    ensures
        out@ == profile_document(
            ssid@,
            wire_auth_token(auth@, cipher@),
            wire_cipher_token(auth@, cipher@),
            key_view(password),
            hidden,
        ),
{
    let tokens = wire_tokens(auth, cipher);
    let esc = escape_xml_text(ssid);
    let mut out = String::from_str(
        "<?xml version=\"1.0\"?><WLANProfile xmlns=\"http://www.microsoft.com/networking/WLAN/profile/v1\"><name>",
    );
    out.append(esc.as_str());
    out.append("</name><SSIDConfig><SSID><name>");
    out.append(esc.as_str());
    out.append("</name></SSID>");
    if hidden {
        out.append("<nonBroadcast>true</nonBroadcast>");
    }
    out.append("</SSIDConfig><connectionType>ESS</connectionType><connectionMode>");
    if password.is_some() {
        out.append("auto");
    } else {
        out.append("manual");
    }
    out.append("</connectionMode><MSM><security><authEncryption><authentication>");
    out.append(tokens.0);
    out.append("</authentication><encryption>");
    out.append(tokens.1);
    out.append("</encryption><useOneX>false</useOneX></authEncryption>");
    match password {
        Some(p) => {
            let esc_key = escape_xml_text(p.expose_secret());
            out.append("<sharedKey><keyType>passPhrase</keyType><protected>false</protected>");
            out.append("<keyMaterial>");
            out.append(esc_key.as_str());
            out.append("</keyMaterial>");
            out.append("</sharedKey>");
        },
        None => {},
    }
    out.append("</security></MSM></WLANProfile>");
    proof {
        assert(out@ =~= profile_document(
            ssid@,
            wire_auth_token(auth@, cipher@),
            wire_cipher_token(auth@, cipher@),
            key_view(password),
            hidden,
        ));
    }
    out
}

/// The element naming an automatic connection.
pub open spec fn auto_mode_token() -> Seq<char> {
    "<connectionMode>auto</connectionMode>"@
}

/// The element naming a manual connection.
pub open spec fn manual_mode_token() -> Seq<char> {
    "<connectionMode>manual</connectionMode>"@
}

/// The mode element a rewrite installs.
pub open spec fn mode_token(enable: bool) -> Seq<char> {
    if enable {
        auto_mode_token()
    } else {
        manual_mode_token()
    }
}

/// Whether a stored document asks for automatic connection: true exactly when
/// its mode element literally reads `auto`.
pub fn read_auto_connect(xml: &str) -> (r: bool)
    ensures
        r == contains_sub(xml@, auto_mode_token()),
{
    contains_str(xml, "<connectionMode>auto</connectionMode>")
}

/// The document `set_auto_connect` produces: the mode elements rewritten to
/// the requested mode, or nothing when no mode element exists.
pub open spec fn set_auto_connect_doc(doc: Seq<char>, enable: bool) -> Option<Seq<char>> {
    if contains_sub(doc, auto_mode_token()) {
        Some(replace_sub(doc, auto_mode_token(), mode_token(enable)))
    } else if contains_sub(doc, manual_mode_token()) {
        Some(replace_sub(doc, manual_mode_token(), mode_token(enable)))
    } else {
        None
    }
}

/// Rewrites the connection mode of a stored document. Fails exactly when the
/// document holds no mode element.
pub fn set_auto_connect(xml: &str, enable: bool) -> (r: Result<String, WifiError>)
    ensures
        match r {
            Ok(out) => set_auto_connect_doc(xml@, enable) == Some(out@),
            Err(e) => set_auto_connect_doc(xml@, enable) is None && e is ProfileXmlInvalid,
        },
{
    let new_mode = if enable {
        "<connectionMode>auto</connectionMode>"
    } else {
        "<connectionMode>manual</connectionMode>"
    };
    proof {
        reveal_strlit("<connectionMode>auto</connectionMode>");
        reveal_strlit("<connectionMode>manual</connectionMode>");
    }
    if contains_str(xml, "<connectionMode>auto</connectionMode>") {
        Ok(replace_str(xml, "<connectionMode>auto</connectionMode>", new_mode))
    } else if contains_str(xml, "<connectionMode>manual</connectionMode>") {
        Ok(replace_str(xml, "<connectionMode>manual</connectionMode>", new_mode))
    } else {
        Err(WifiError::ProfileXmlInvalid)
    }
}

/// Enabling auto-connect twice yields the same document as enabling it once:
/// the first rewrite leaves an `auto` mode element in place, and rewriting
/// that element to `auto` again changes nothing.
pub proof fn lemma_set_auto_connect_idempotent(doc: Seq<char>, out: Seq<char>)
    requires
        set_auto_connect_doc(doc, true) == Some(out),
    ensures
        set_auto_connect_doc(out, true) == Some(out),
{
    reveal_strlit("<connectionMode>auto</connectionMode>");
    reveal_strlit("<connectionMode>manual</connectionMode>");
    let auto = auto_mode_token();
    let manual = manual_mode_token();
    if contains_sub(doc, auto) {
        crate::text::lemma_replace_self(doc, auto);
        assert(out == doc);
        crate::text::lemma_replace_self(out, auto);
    } else {
        assert(contains_sub(doc, manual));
        assert(out == replace_sub(doc, manual, auto));
        crate::text::lemma_replace_contains(doc, manual, auto);
        assert(contains_sub(out, auto));
        crate::text::lemma_replace_self(out, auto);
    }
}

/// The key `extract_stored_key` reads out of a stored document: the unescaped
/// text between the first key tags, or nothing when the document has no key
/// element or an empty one — an open network, or a store that withheld the
/// plain text.
pub open spec fn stored_key_doc(doc: Seq<char>) -> Option<Seq<char>> {
    match (find_sub(doc, key_open_token()), find_sub(doc, key_close_token())) {
        (Some(i), Some(j)) => {
            if i + key_open_token().len() <= j && j < doc.len() {
                let raw = doc.subrange(i + key_open_token().len() as int, j);
                if raw.len() > 0 {
                    Some(xml_unescape(raw))
                } else {
                    None
                }
            } else {
                None
            }
        },
        _ => None,
    }
}

/// Extracts the stored key of a saved document, if one is present.
pub fn extract_stored_key(xml: &str) -> (r: Option<Secret>)
    ensures
        match r {
            Some(s) => stored_key_doc(xml@) == Some(s@),
            None => stored_key_doc(xml@) is None,
        },
{
    proof {
        reveal_strlit("<keyMaterial>");
        reveal_strlit("</keyMaterial>");
    }
    let open_pos = find_str(xml, "<keyMaterial>");
    let close_pos = find_str(xml, "</keyMaterial>");
    match (open_pos, close_pos) {
        (Some(i), Some(j)) => {
            proof {
                lemma_find_first(xml@, key_open_token());
                lemma_find_first(xml@, key_close_token());
            }
            if j >= 13 && i <= j - 13 {
                let raw = xml.substring_char(i + 13, j);
                if raw.unicode_len() > 0 {
                    Some(Secret::new(unescape_xml_text(raw)))
                } else {
                    None
                }
            } else {
                None
            }
        },
        _ => None,
    }
}

/// Shields every fixed segment of a built document against both key tags:
/// any would-be match of a key tag beginning inside a segment fails within
/// that segment.
proof fn lemma_segments_shielded()
    ensures
        shielded(seg_head(), key_open_token()),
        shielded(seg_mid(), key_open_token()),
        shielded(seg_close_ssid(), key_open_token()),
        shielded(seg_hidden(), key_open_token()),
        shielded(seg_conn_type(), key_open_token()),
        shielded("auto"@, key_open_token()),
        shielded(seg_auth_open(), key_open_token()),
        shielded(seg_auth_close(), key_open_token()),
        shielded(seg_enc_close(), key_open_token()),
        shielded(seg_key_prefix(), key_open_token()),
        shielded(seg_head(), key_close_token()),
        shielded(seg_mid(), key_close_token()),
        shielded(seg_close_ssid(), key_close_token()),
        shielded(seg_hidden(), key_close_token()),
        shielded(seg_conn_type(), key_close_token()),
        shielded("auto"@, key_close_token()),
        shielded(seg_auth_open(), key_close_token()),
        shielded(seg_auth_close(), key_close_token()),
        shielded(seg_enc_close(), key_close_token()),
        shielded(seg_key_prefix(), key_close_token()),
        shielded(key_open_token(), key_close_token()),
{
    reveal_strlit(
        "<?xml version=\"1.0\"?><WLANProfile xmlns=\"http://www.microsoft.com/networking/WLAN/profile/v1\"><name>",
    );
    reveal_strlit("</name><SSIDConfig><SSID><name>");
    reveal_strlit("</name></SSID>");
    reveal_strlit("<nonBroadcast>true</nonBroadcast>");
    reveal_strlit("</SSIDConfig><connectionType>ESS</connectionType><connectionMode>");
    reveal_strlit("auto");
    reveal_strlit("</connectionMode><MSM><security><authEncryption><authentication>");
    reveal_strlit("</authentication><encryption>");
    reveal_strlit("</encryption><useOneX>false</useOneX></authEncryption>");
    reveal_strlit("<sharedKey><keyType>passPhrase</keyType><protected>false</protected>");
    reveal_strlit("<keyMaterial>");
    reveal_strlit("</keyMaterial>");
    let op = key_open_token();
    let cl = key_close_token();
    lemma_shield_literal(seg_head(), op);
    lemma_shield_literal(seg_mid(), op);
    lemma_shield_literal(seg_close_ssid(), op);
    lemma_shield_literal(seg_hidden(), op);
    lemma_shield_literal(seg_conn_type(), op);
    lemma_shield_literal("auto"@, op);
    lemma_shield_literal(seg_auth_open(), op);
    lemma_shield_literal(seg_auth_close(), op);
    lemma_shield_literal(seg_enc_close(), op);
    lemma_shield_literal(seg_key_prefix(), op);
    lemma_shield_literal(seg_head(), cl);
    lemma_shield_literal(seg_mid(), cl);
    lemma_shield_literal(seg_close_ssid(), cl);
    lemma_shield_literal(seg_hidden(), cl);
    lemma_shield_literal(seg_conn_type(), cl);
    lemma_shield_literal("auto"@, cl);
    lemma_shield_literal(seg_auth_open(), cl);
    lemma_shield_literal(seg_auth_close(), cl);
    lemma_shield_literal(seg_enc_close(), cl);
    lemma_shield_literal(seg_key_prefix(), cl);
    lemma_shield_literal(op, cl);
}

/// Extracting the stored key of a freshly built secured document yields the
/// password it was built with, whatever markup-reserved characters the name
/// or the password contain. `auth` and `cipher` are wire tokens, so they hold
/// no `<`.
pub proof fn lemma_stored_key_round_trip(
    ssid: Seq<char>,
    auth: Seq<char>,
    cipher: Seq<char>,
    pwd: Seq<char>,
    hidden: bool,
)
    requires
        pwd.len() > 0,
        forall|i: int| 0 <= i < auth.len() ==> auth[i] != '<',
        forall|i: int| 0 <= i < cipher.len() ==> cipher[i] != '<',
    ensures
        stored_key_doc(profile_document(ssid, auth, cipher, Some(pwd), hidden)) == Some(pwd),
{
    reveal_strlit("<keyMaterial>");
    reveal_strlit("</keyMaterial>");
    reveal_strlit("auto");
    let op = key_open_token();
    let cl = key_close_token();
    let es = xml_escape(ssid);
    let ep = xml_escape(pwd);
    crate::text::lemma_escape_lt_free(ssid);
    crate::text::lemma_escape_lt_free(pwd);
    crate::text::lemma_escape_len(pwd);
    crate::text::lemma_unescape_escape(pwd);
    lemma_segments_shielded();
    crate::text::lemma_shielded_head_free(es, op);
    crate::text::lemma_shielded_head_free(es, cl);
    crate::text::lemma_shielded_head_free(ep, cl);
    crate::text::lemma_shielded_head_free(auth, op);
    crate::text::lemma_shielded_head_free(auth, cl);
    crate::text::lemma_shielded_head_free(cipher, op);
    crate::text::lemma_shielded_head_free(cipher, cl);
    let hid: Seq<char> = if hidden {
        seg_hidden()
    } else {
        Seq::empty()
    };
    assert(shielded(hid, op));
    assert(shielded(hid, cl));
    let pre = seg_head() + es + seg_mid() + es + seg_close_ssid() + hid + seg_conn_type()
        + "auto"@ + seg_auth_open() + auth + seg_auth_close() + cipher + seg_enc_close()
        + seg_key_prefix();
    let doc = profile_document(ssid, auth, cipher, Some(pwd), hidden);
    proof_shield_chain(es, hid, auth, cipher, op);
    proof_shield_chain(es, hid, auth, cipher, cl);
    let rest1 = op + ep + cl + seg_key_suffix() + seg_tail();
    assert(doc =~= pre + rest1);
    assert((pre + rest1).subrange(pre.len() as int, pre.len() + op.len() as int) =~= op);
    assert(occurs_at(doc, op, pre.len() as int));
    crate::text::lemma_shielded_no_occurrence(pre, rest1, op);
    crate::text::lemma_first_occurrence_is_find(doc, op, pre.len() as int);
    let pre2 = pre + op + ep;
    crate::text::lemma_shielded_concat(pre, op, cl);
    crate::text::lemma_shielded_concat(pre + op, ep, cl);
    let rest2 = cl + seg_key_suffix() + seg_tail();
    assert(doc =~= pre2 + rest2);
    assert((pre2 + rest2).subrange(pre2.len() as int, pre2.len() + cl.len() as int) =~= cl);
    assert(occurs_at(doc, cl, pre2.len() as int));
    crate::text::lemma_shielded_no_occurrence(pre2, rest2, cl);
    crate::text::lemma_first_occurrence_is_find(doc, cl, pre2.len() as int);
    let i = pre.len() as int;
    let j = pre2.len() as int;
    assert(find_sub(doc, op) == Some(i));
    assert(find_sub(doc, cl) == Some(j));
    assert(j == i + op.len() + ep.len());
    assert(doc.subrange(i + op.len() as int, j) =~= ep);
    assert(stored_key_doc(doc) == Some(xml_unescape(ep)));
}

/// Whatever descriptor and cipher are asked for, the wire tokens hold no `<`:
/// each is one of a fixed set of plain words.
proof fn lemma_wire_tokens_lt_free(auth: Seq<char>, cipher: Seq<char>)
    ensures
        forall|i: int|
            0 <= i < wire_auth_token(auth, cipher).len() ==> wire_auth_token(auth, cipher)[i]
                != '<',
        forall|i: int|
            0 <= i < wire_cipher_token(auth, cipher).len() ==> wire_cipher_token(auth, cipher)[i]
                != '<',
{
    reveal_strlit("WPA3SAE");
    reveal_strlit("WPA3ENT");
    reveal_strlit("WPA3ENT192");
    reveal_strlit("WPA2PSK");
    reveal_strlit("WPA2");
    reveal_strlit("WPAPSK");
    reveal_strlit("WPA");
    reveal_strlit("shared");
    reveal_strlit("open");
    reveal_strlit("GCMP");
    reveal_strlit("AES");
    reveal_strlit("TKIP");
    reveal_strlit("WEP");
    reveal_strlit("none");
}

/// Extracting the stored key of a document built for any security descriptor
/// yields the password the document was built with, for every name and
/// password, whatever markup-reserved characters they contain.
pub proof fn lemma_build_extract_round_trip(
    ssid: Seq<char>,
    auth: Seq<char>,
    cipher: Seq<char>,
    pwd: Seq<char>,
    hidden: bool,
)
    requires
        pwd.len() > 0,
    ensures
        stored_key_doc(
            profile_document(
                ssid,
                wire_auth_token(auth, cipher),
                wire_cipher_token(auth, cipher),
                Some(pwd),
                hidden,
            ),
        ) == Some(pwd),
{
    lemma_wire_tokens_lt_free(auth, cipher);
    lemma_stored_key_round_trip(
        ssid,
        wire_auth_token(auth, cipher),
        wire_cipher_token(auth, cipher),
        pwd,
        hidden,
    );
}

/// Chains the per-segment shields into a shield of the whole document prefix
/// that stands before the key element.
proof fn proof_shield_chain(
    es: Seq<char>,
    hid: Seq<char>,
    auth: Seq<char>,
    cipher: Seq<char>,
    t: Seq<char>,
)
    requires
        shielded(seg_head(), t),
        shielded(es, t),
        shielded(seg_mid(), t),
        shielded(seg_close_ssid(), t),
        shielded(hid, t),
        shielded(seg_conn_type(), t),
        shielded("auto"@, t),
        shielded(seg_auth_open(), t),
        shielded(auth, t),
        shielded(seg_auth_close(), t),
        shielded(cipher, t),
        shielded(seg_enc_close(), t),
        shielded(seg_key_prefix(), t),
    ensures
        shielded(
            seg_head() + es + seg_mid() + es + seg_close_ssid() + hid + seg_conn_type() + "auto"@
                + seg_auth_open() + auth + seg_auth_close() + cipher + seg_enc_close()
                + seg_key_prefix(),
            t,
        ),
{
    let p1 = seg_head() + es;
    crate::text::lemma_shielded_concat(seg_head(), es, t);
    let p2 = p1 + seg_mid();
    crate::text::lemma_shielded_concat(p1, seg_mid(), t);
    let p3 = p2 + es;
    crate::text::lemma_shielded_concat(p2, es, t);
    let p4 = p3 + seg_close_ssid();
    crate::text::lemma_shielded_concat(p3, seg_close_ssid(), t);
    let p5 = p4 + hid;
    crate::text::lemma_shielded_concat(p4, hid, t);
    let p6 = p5 + seg_conn_type();
    crate::text::lemma_shielded_concat(p5, seg_conn_type(), t);
    let p7 = p6 + "auto"@;
    crate::text::lemma_shielded_concat(p6, "auto"@, t);
    let p8 = p7 + seg_auth_open();
    crate::text::lemma_shielded_concat(p7, seg_auth_open(), t);
    let p9 = p8 + auth;
    crate::text::lemma_shielded_concat(p8, auth, t);
    let p10 = p9 + seg_auth_close();
    crate::text::lemma_shielded_concat(p9, seg_auth_close(), t);
    let p11 = p10 + cipher;
    crate::text::lemma_shielded_concat(p10, cipher, t);
    let p12 = p11 + seg_enc_close();
    crate::text::lemma_shielded_concat(p11, seg_enc_close(), t);
    crate::text::lemma_shielded_concat(p12, seg_key_prefix(), t);
}

} // verus!
