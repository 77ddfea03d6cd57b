//! Conversion of native status codes into typed errors, one function per
//! call site kind: every native call reports a `u32` status, and zero means
//! success.
use vstd::prelude::*;
use crate::error::{WifiError, WifiResult};

verus! {

/// The status a profile deletion reports for a name it does not hold.
pub const STATUS_NOT_FOUND: u32 = 1168;

/// Outcome of opening the native session handle.
pub fn open_outcome(code: u32) -> (r: WifiResult<()>)
    ensures
        r is Ok <==> code == 0,
        r matches Err(e) ==> e matches WifiError::HandleOpenFailed { code: c } && c == code,
{
    if code == 0 {
        Ok(())
    } else {
        Err(WifiError::HandleOpenFailed { code })
    }
}

/// Outcome of enumerating adapters: the enumeration must succeed and must
/// report at least one adapter.
pub fn interface_outcome(code: u32, adapter_count: usize) -> (r: WifiResult<()>)
    ensures
        r is Ok <==> (code == 0 && adapter_count > 0),
        code != 0 ==> (r matches Err(e) && e matches WifiError::InterfaceEnumFailed {
            code: c,
        } && c == code),
        code == 0 && adapter_count == 0 ==> (r matches Err(e) && e is NoInterface),
{
    if code != 0 {
        Err(WifiError::InterfaceEnumFailed { code })
    } else if adapter_count == 0 {
        Err(WifiError::NoInterface)
    } else {
        Ok(())
    }
}

/// Outcome of requesting a scan.
pub fn scan_outcome(code: u32) -> (r: WifiResult<()>)
    ensures
        r is Ok <==> code == 0,
        r matches Err(e) ==> e matches WifiError::ScanFailed { code: c } && c == code,
{
    if code == 0 {
        Ok(())
    } else {
        Err(WifiError::ScanFailed { code })
    }
}

/// Outcome of listing the advertised networks.
pub fn network_list_outcome(code: u32) -> (r: WifiResult<()>)
    ensures
        r is Ok <==> code == 0,
        r matches Err(e) ==> e matches WifiError::NetworkListFailed { code: c } && c == code,
{
    if code == 0 {
        Ok(())
    } else {
        Err(WifiError::NetworkListFailed { code })
    }
}

/// Outcome of issuing a connect by profile name.
pub fn connect_outcome(code: u32) -> (r: WifiResult<()>)
    ensures
        r is Ok <==> code == 0,
        r matches Err(e) ==> e matches WifiError::ConnectionFailed { code: c } && c == code,
{
    if code == 0 {
        Ok(())
    } else {
        Err(WifiError::ConnectionFailed { code })
    }
}

/// Outcome of installing a new profile document.
pub fn profile_add_outcome(code: u32, reason: u32) -> (r: WifiResult<()>)
    ensures
        r is Ok <==> code == 0,
        r matches Err(e) ==> e matches WifiError::ProfileAddFailed { code: c, reason: s } && c
            == code && s == reason,
{
    if code == 0 {
        Ok(())
    } else {
        Err(WifiError::ProfileAddFailed { code, reason })
    }
}

/// Outcome of reading a profile document: the read must succeed and must
/// hand a document back.
pub fn profile_get_outcome(code: u32, got_document: bool) -> (r: WifiResult<()>)
    ensures
        r is Ok <==> (code == 0 && got_document),
        r matches Err(e) ==> e matches WifiError::ProfileGetFailed { code: c } && c == code,
{
    if code == 0 && got_document {
        Ok(())
    } else {
        Err(WifiError::ProfileGetFailed { code })
    }
}

/// Outcome of writing a rewritten profile document back.
pub fn profile_set_outcome(code: u32, reason: u32) -> (r: WifiResult<()>)
    ensures
        r is Ok <==> code == 0,
        r matches Err(e) ==> e matches WifiError::ProfileSetFailed { code: c, reason: s } && c
            == code && s == reason,
{
    if code == 0 {
        Ok(())
    } else {
        Err(WifiError::ProfileSetFailed { code, reason })
    }
}

/// Outcome of deleting a profile: deleting a name the store does not hold
/// counts as success, so forgetting is idempotent.
pub fn delete_profile_outcome(code: u32) -> (r: WifiResult<()>)
    ensures
        r is Ok <==> (code == 0 || code == STATUS_NOT_FOUND),
        r matches Err(e) ==> e matches WifiError::ProfileDeleteFailed { code: c } && c == code,
{
    if code == 0 || code == STATUS_NOT_FOUND {
        Ok(())
    } else {
        Err(WifiError::ProfileDeleteFailed { code })
    }
}

/// Outcome of a disconnect request.
pub fn disconnect_outcome(code: u32) -> (r: WifiResult<()>)
    ensures
        r is Ok <==> code == 0,
        r matches Err(e) ==> e matches WifiError::DisconnectFailed { code: c } && c == code,
{
    if code == 0 {
        Ok(())
    } else {
        Err(WifiError::DisconnectFailed { code })
    }
}

/// Outcome of registering the notification callback.
pub fn registration_outcome(code: u32) -> (r: WifiResult<()>)
    ensures
        r is Ok <==> code == 0,
        r matches Err(e) ==> e matches WifiError::NotificationRegistrationFailed { code: c } && c
            == code,
{
    if code == 0 {
        Ok(())
    } else {
        Err(WifiError::NotificationRegistrationFailed { code })
    }
}

} // verus!
