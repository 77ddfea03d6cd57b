//! The standard credential-sharing payload (`WIFI:S:...;T:...;P:...;;`) and
//! its rendering as a block-character drawing.
use vstd::prelude::*;
use crate::profile::{key_view, Secret};
use crate::text::str_eq;

verus! {

/// The escaping the payload format asks for: backslash, semicolon, comma and
/// colon carry a leading backslash.
pub open spec fn qr_escape_char(c: char) -> Seq<char> {
    if c == '\\' {
        seq!['\\', '\\']
    } else if c == ';' {
        seq!['\\', ';']
    } else if c == ',' {
        seq!['\\', ',']
    } else if c == ':' {
        seq!['\\', ':']
    } else {
        seq![c]
    }
}

/// `s` with every reserved payload character escaped.
pub open spec fn qr_escape(s: Seq<char>) -> Seq<char>
    decreases s.len(),
{
    if s.len() == 0 {
        Seq::empty()
    } else {
        qr_escape_char(s[0]) + qr_escape(s.skip(1))
    }
}

/// Escapes the characters the payload format reserves.
pub fn escape_special_chars(s: &str) -> (out: String)
    ensures
        out@ == qr_escape(s@),
{
    let slen = s.unicode_len();
    let mut out = String::new();
    let mut i: usize = 0;
    proof {
        assert(s@.skip(0) =~= s@);
        assert(out@ + qr_escape(s@) =~= qr_escape(s@));
    }
    while i < slen
        invariant
            slen == s@.len(),
            i <= slen,
            out@ + qr_escape(s@.skip(i as int)) == qr_escape(s@),
        decreases slen - i,
    {
        let c = s.get_char(i);
        proof {
            assert(s@.skip(i as int)[0] == s@[i as int]);
            assert(s@.skip(i as int).skip(1) =~= s@.skip(i + 1));
        }
        if c == '\\' {
            out.append("\\\\");
            proof {
                reveal_strlit("\\\\");
                assert("\\\\"@ =~= qr_escape_char(c));
            }
        } else if c == ';' {
            out.append("\\;");
            proof {
                reveal_strlit("\\;");
                assert("\\;"@ =~= qr_escape_char(c));
            }
        } else if c == ',' {
            out.append("\\,");
            proof {
                reveal_strlit("\\,");
                assert("\\,"@ =~= qr_escape_char(c));
            }
        } else if c == ':' {
            out.append("\\:");
            proof {
                reveal_strlit("\\:");
                assert("\\:"@ =~= qr_escape_char(c));
            }
        } else {
            let piece = s.substring_char(i, i + 1);
            out.append(piece);
            proof {
                assert(piece@ =~= qr_escape_char(c));
            }
        }
        i += 1;
    }
    assert(s@.skip(slen as int) =~= Seq::<char>::empty());
    assert(out@ + qr_escape(s@.skip(slen as int)) =~= out@);
    out
}

/// The payload's network kind for a display authentication token: every
/// personal WPA family collapses to `WPA`, open networks to `nopass`, and an
/// unrecognised token is treated as WPA.
pub open spec fn qr_auth_kind(auth: Seq<char>) -> Seq<char> {
    if auth == "Open"@ || auth == "open"@ {
        "nopass"@
    } else {
        "WPA"@
    }
}

/// Renders the payload's network kind.
pub fn qr_auth_token(auth: &str) -> (r: &'static str)
    ensures
        r@ == qr_auth_kind(auth@),
{
    if str_eq(auth, "Open") || str_eq(auth, "open") {
        "nopass"
    } else {
        "WPA"
    }
}

/// The credential-sharing payload for a network: name, kind, and — for a
/// secured network whose key is at hand — the key, all escaped.
pub open spec fn wifi_qr_payload(ssid: Seq<char>, auth: Seq<char>, key: Option<Seq<char>>) -> Seq<
    char,
> {
    let kind = qr_auth_kind(auth);
    if kind == "nopass"@ {
        "WIFI:S:"@ + qr_escape(ssid) + ";T:nopass;;"@
    } else {
        match key {
            Some(p) => "WIFI:S:"@ + qr_escape(ssid) + ";T:"@ + kind + ";P:"@ + qr_escape(p)
                + ";;"@,
            None => "WIFI:S:"@ + qr_escape(ssid) + ";T:"@ + kind + ";;"@,
        }
    }
}

/// Builds the credential-sharing payload.
pub fn build_qr_payload(ssid: &str, auth: &str, password: Option<&Secret>) -> (out: String)
    ensures
        out@ == wifi_qr_payload(ssid@, auth@, key_view(password)),
{
    let kind = qr_auth_token(auth);
    let nopass = str_eq(kind, "nopass");
    proof {
        reveal_strlit("nopass");
        reveal_strlit("WPA");
    }
    let mut out = String::from_str("WIFI:S:");
    let esc = escape_special_chars(ssid);
    out.append(esc.as_str());
    if nopass {
        out.append(";T:nopass;;");
    } else {
        out.append(";T:");
        out.append(kind);
        match password {
            Some(p) => {
                out.append(";P:");
                let esc_key = escape_special_chars(p.expose_secret());
                out.append(esc_key.as_str());
                out.append(";;");
            },
            None => {
                out.append(";;");
            },
        }
    }
    out
}

/// The drawing the renderer produces for a payload, as one text with a line
/// feed between rows.
pub uninterp spec fn qr_unicode_drawing(data: Seq<char>) -> Seq<char>;

/// Whether a payload fits in a code at all.
pub uninterp spec fn qr_encodable(data: Seq<char>) -> bool;

/// Relies on qrcode::QrCode::new, which encodes a payload or reports that it
/// cannot, and on its Dense1x2 Unicode renderer: both depend on the payload
/// alone.
#[verifier::external_body]
fn render_qr(data: &str) -> (r: Option<String>)
    ensures
        r is Some <==> qr_encodable(data@),
        match r {
            Some(drawing) => drawing@ == qr_unicode_drawing(data@),
            None => true,
        },
{
    match qrcode::QrCode::new(data.as_bytes()) {
        Ok(code) => Some(code.render::<qrcode::render::unicode::Dense1x2>().build()),
        Err(_) => None,
    }
}

/// Renders the credential-sharing drawing for a network: the payload's code
/// as lines of block characters, or a single error line where the payload
/// cannot be encoded.
pub fn generate_wifi_qr(ssid: &str, auth: &str, password: Option<&Secret>) -> (out: Vec<String>)
    ensures
        ({
            let payload = wifi_qr_payload(ssid@, auth@, key_view(password));
            &&& (qr_encodable(payload) ==> crate::text::str_views(out@) == crate::text::lines_of(
                qr_unicode_drawing(payload),
            ))
            &&& (!qr_encodable(payload) ==> out@.len() == 1 && out@[0]@
                == "Error generating QR code"@)
        }),
{
    let payload = build_qr_payload(ssid, auth, password);
    match render_qr(payload.as_str()) {
        Some(drawing) => crate::text::split_lines(drawing.as_str()),
        None => {
            let mut out: Vec<String> = Vec::new();
            out.push(String::from_str("Error generating QR code"));
            out
        },
    }
}

} // verus!
