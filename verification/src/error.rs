//! Typed errors for the wireless operations, and the decoding of native
//! connection-failure reason codes into readable text.
use vstd::prelude::*;
use crate::text::{
    contains_sub, dec_chars, hex_chars, lemma_contains_exists, occurs_at, push_dec, push_hex,
};

verus! {

/// Result alias used throughout the library.
pub type WifiResult<T> = Result<T, WifiError>;

/// Everything that can go wrong against the native wireless subsystem.
/// Each variant carries the raw status code, and a secondary reason code
/// where the subsystem reports one.
#[derive(Debug, Clone)]
pub enum WifiError {
    HandleOpenFailed { code: u32 },
    InterfaceEnumFailed { code: u32 },
    NoInterface,
    NetworkListFailed { code: u32 },
    NotificationRegistrationFailed { code: u32 },
    ScanFailed { code: u32 },
    ConnectionFailed { code: u32 },
    ProfileAddFailed { code: u32, reason: u32 },
    ProfileGetFailed { code: u32 },
    ProfileSetFailed { code: u32, reason: u32 },
    ProfileDeleteFailed { code: u32 },
    DisconnectFailed { code: u32 },
    ProfileXmlInvalid,
    Internal(String),
}

/// The text `message` returns for each error.
pub open spec fn error_message(e: WifiError) -> Seq<char> {
    match e {
        WifiError::HandleOpenFailed { code } => "Failed to open WLAN handle (code: "@ + dec_chars(
            code as int,
        ) + ")"@,
        WifiError::InterfaceEnumFailed { code } => "Failed to enumerate interfaces (code: "@
            + dec_chars(code as int) + ")"@,
        WifiError::NoInterface => "No WiFi interface found"@,
        WifiError::NetworkListFailed { code } => "Failed to get available networks (code: "@
            + dec_chars(code as int) + ")"@,
        WifiError::NotificationRegistrationFailed { code } => {
            "Failed to register notification (code: "@ + dec_chars(code as int) + ")"@
        },
        WifiError::ScanFailed { code } => "Failed to scan networks (code: "@ + dec_chars(
            code as int,
        ) + ")"@,
        WifiError::ConnectionFailed { code } => "Failed to connect (code: "@ + dec_chars(
            code as int,
        ) + ")"@,
        WifiError::ProfileAddFailed { code, reason } => "Failed to add profile (code: "@
            + dec_chars(code as int) + ", reason: "@ + dec_chars(reason as int) + ")"@,
        WifiError::ProfileGetFailed { code } => "Failed to get profile (code: "@ + dec_chars(
            code as int,
        ) + ")"@,
        WifiError::ProfileSetFailed { code, reason } => "Failed to set profile (code: "@
            + dec_chars(code as int) + ", reason: "@ + dec_chars(reason as int) + ")"@,
        WifiError::ProfileDeleteFailed { code } => "Failed to delete profile (code: "@ + dec_chars(
            code as int,
        ) + ")"@,
        WifiError::DisconnectFailed { code } => "Failed to disconnect (code: "@ + dec_chars(
            code as int,
        ) + ")"@,
        WifiError::ProfileXmlInvalid => "Could not find connectionMode in profile XML"@,
        WifiError::Internal(text) => "Internal error: "@ + text@,
    }
}

impl WifiError {
    /// Renders the error as the text a user sees.
    pub fn message(&self) -> (out: String)
        ensures
            out@ == error_message(*self),
    {
        match self {
            WifiError::HandleOpenFailed { code } => {
                let mut out = String::from_str("Failed to open WLAN handle (code: ");
                push_dec(&mut out, *code);
                out.append(")");
                out
            },
            WifiError::InterfaceEnumFailed { code } => {
                let mut out = String::from_str("Failed to enumerate interfaces (code: ");
                push_dec(&mut out, *code);
                out.append(")");
                out
            },
            WifiError::NoInterface => String::from_str("No WiFi interface found"),
            WifiError::NetworkListFailed { code } => {
                let mut out = String::from_str("Failed to get available networks (code: ");
                push_dec(&mut out, *code);
                out.append(")");
                out
            },
            WifiError::NotificationRegistrationFailed { code } => {
                let mut out = String::from_str("Failed to register notification (code: ");
                push_dec(&mut out, *code);
                out.append(")");
                out
            },
            WifiError::ScanFailed { code } => {
                let mut out = String::from_str("Failed to scan networks (code: ");
                push_dec(&mut out, *code);
                out.append(")");
                out
            },
            WifiError::ConnectionFailed { code } => {
                let mut out = String::from_str("Failed to connect (code: ");
                push_dec(&mut out, *code);
                out.append(")");
                out
            },
            WifiError::ProfileAddFailed { code, reason } => {
                let mut out = String::from_str("Failed to add profile (code: ");
                push_dec(&mut out, *code);
                out.append(", reason: ");
                push_dec(&mut out, *reason);
                out.append(")");
                out
            },
            WifiError::ProfileGetFailed { code } => {
                let mut out = String::from_str("Failed to get profile (code: ");
                push_dec(&mut out, *code);
                out.append(")");
                out
            },
            WifiError::ProfileSetFailed { code, reason } => {
                let mut out = String::from_str("Failed to set profile (code: ");
                push_dec(&mut out, *code);
                out.append(", reason: ");
                push_dec(&mut out, *reason);
                out.append(")");
                out
            },
            WifiError::ProfileDeleteFailed { code } => {
                let mut out = String::from_str("Failed to delete profile (code: ");
                push_dec(&mut out, *code);
                out.append(")");
                out
            },
            WifiError::DisconnectFailed { code } => {
                let mut out = String::from_str("Failed to disconnect (code: ");
                push_dec(&mut out, *code);
                out.append(")");
                out
            },
            WifiError::ProfileXmlInvalid => String::from_str(
                "Could not find connectionMode in profile XML",
            ),
            WifiError::Internal(text) => {
                let mut out = String::from_str("Internal error: ");
                out.append(text.as_str());
                out
            },
        }
    }
}

/// The reason codes the static table names.
pub open spec fn known_reason(code: u32) -> bool {
    code == 0 || code == 1 || code == 0x00010001 || code == 0x00010002 || code == 0x00028002
        || code == 0x00028003 || code == 0x00028004 || code == 0x00028005 || code == 0x00028006
        || code == 0x00028007 || code == 0x00028008 || code == 0x00028009 || code == 0x0002800A
        || code == 0x0002800B || code == 0x0002800C || code == 0x0002800D || code == 0x0002800E
        || code == 0x00038001 || code == 0x00038002 || code == 0x00038003 || code == 0x00038004
        || code == 0x00038005 || code == 0x00038006 || code == 0x00038014 || code == 0x00050004
        || code == 0x00048005 || code == 0x00048014 || code == 0x00080006
}

/// The text `wlan_reason_to_string` returns for each reason code.
pub open spec fn reason_string(code: u32) -> Seq<char> {
    if code == 0 {
        "Success"@
    } else if code == 1 {
        "Unknown Failure"@
    } else if code == 0x00010001 {
        "Network Not Compatible"@
    } else if code == 0x00010002 {
        "Profile Not Compatible"@
    } else if code == 0x00028002 {
        "Association Failed"@
    } else if code == 0x00028003 {
        "Association Timeout"@
    } else if code == 0x00028004 {
        "Pre-Security Failure"@
    } else if code == 0x00028005 {
        "Start Security Failure"@
    } else if code == 0x00028006 {
        "Security Failure"@
    } else if code == 0x00028007 {
        "Security Timeout"@
    } else if code == 0x00028008 {
        "Roaming Failure"@
    } else if code == 0x00028009 {
        "Roaming Security Failure"@
    } else if code == 0x0002800A {
        "Ad-hoc Security Failure"@
    } else if code == 0x0002800B {
        "Driver Disconnected (Possible Wrong Password)"@
    } else if code == 0x0002800C {
        "Driver Operation Failure"@
    } else if code == 0x0002800D {
        "IHV Not Available"@
    } else if code == 0x0002800E {
        "IHV Not Responding"@
    } else if code == 0x00038001 {
        "ACM Base"@
    } else if code == 0x00038002 {
        "Connection Failed (Network Not Available or Wrong Password)"@
    } else if code == 0x00038003 {
        "Profile Not Found"@
    } else if code == 0x00038004 {
        "Profile Already Exists"@
    } else if code == 0x00038005 {
        "Profile Name Too Long"@
    } else if code == 0x00038006 {
        "Profile Invalid"@
    } else if code == 0x00038014 {
        "Connection Failed (Profile Issue)"@
    } else if code == 0x00050004 {
        "Incorrect Password"@
    } else if code == 0x00048005 {
        "Incorrect Password (Key Exchange Timeout)"@
    } else if code == 0x00048014 {
        "Authentication Timeout (Possible Wrong Password)"@
    } else if code == 0x00080006 {
        "MSM Security Missing"@
    } else {
        "Unknown Error (Code: "@ + dec_chars(code as int) + ", 0x"@ + hex_chars(code as int)
            + ")"@
    }
}

/// Decodes a native connection-failure reason code through the static table,
/// falling back to a text that spells the code out in decimal and hex.
pub fn wlan_reason_to_string(code: u32) -> (out: String)
    ensures
        out@ == reason_string(code),
{
    if code == 0 {
        String::from_str("Success")
    } else if code == 1 {
        String::from_str("Unknown Failure")
    } else if code == 0x00010001 {
        String::from_str("Network Not Compatible")
    } else if code == 0x00010002 {
        String::from_str("Profile Not Compatible")
    } else if code == 0x00028002 {
        String::from_str("Association Failed")
    } else if code == 0x00028003 {
        String::from_str("Association Timeout")
    } else if code == 0x00028004 {
        String::from_str("Pre-Security Failure")
    } else if code == 0x00028005 {
        String::from_str("Start Security Failure")
    } else if code == 0x00028006 {
        String::from_str("Security Failure")
    } else if code == 0x00028007 {
        String::from_str("Security Timeout")
    } else if code == 0x00028008 {
        String::from_str("Roaming Failure")
    } else if code == 0x00028009 {
        String::from_str("Roaming Security Failure")
    } else if code == 0x0002800A {
        String::from_str("Ad-hoc Security Failure")
    } else if code == 0x0002800B {
        String::from_str("Driver Disconnected (Possible Wrong Password)")
    } else if code == 0x0002800C {
        String::from_str("Driver Operation Failure")
    } else if code == 0x0002800D {
        String::from_str("IHV Not Available")
    } else if code == 0x0002800E {
        String::from_str("IHV Not Responding")
    } else if code == 0x00038001 {
        String::from_str("ACM Base")
    } else if code == 0x00038002 {
        String::from_str("Connection Failed (Network Not Available or Wrong Password)")
    } else if code == 0x00038003 {
        String::from_str("Profile Not Found")
    } else if code == 0x00038004 {
        String::from_str("Profile Already Exists")
    } else if code == 0x00038005 {
        String::from_str("Profile Name Too Long")
    } else if code == 0x00038006 {
        String::from_str("Profile Invalid")
    } else if code == 0x00038014 {
        String::from_str("Connection Failed (Profile Issue)")
    } else if code == 0x00050004 {
        String::from_str("Incorrect Password")
    } else if code == 0x00048005 {
        String::from_str("Incorrect Password (Key Exchange Timeout)")
    } else if code == 0x00048014 {
        String::from_str("Authentication Timeout (Possible Wrong Password)")
    } else if code == 0x00080006 {
        String::from_str("MSM Security Missing")
    } else {
        let mut out = String::from_str("Unknown Error (Code: ");
        push_dec(&mut out, code);
        out.append(", 0x");
        push_hex(&mut out, code);
        out.append(")");
        out
    }
}

/// For a reason code absent from the static table, the decoded text contains
/// the code in decimal and in hexadecimal.
pub proof fn lemma_unknown_reason_names_code(code: u32)
    requires
        !known_reason(code),
    ensures
        contains_sub(reason_string(code), dec_chars(code as int)),
        contains_sub(reason_string(code), hex_chars(code as int)),
{
    let s = reason_string(code);
    let a = "Unknown Error (Code: "@;
    let d = dec_chars(code as int);
    let m = ", 0x"@;
    let h = hex_chars(code as int);
    let c = ")"@;
    assert(s == a + d + m + h + c);
    let dpos = a.len() as int;
    assert(s.subrange(dpos, dpos + d.len() as int) =~= d);
    assert(occurs_at(s, d, dpos));
    lemma_contains_exists(s, d);
    let hpos = a.len() + d.len() + m.len() as int;
    assert(s.subrange(hpos as int, hpos + h.len() as int) =~= h);
    assert(occurs_at(s, h, hpos as int));
    lemma_contains_exists(s, h);
}

} // verus!
