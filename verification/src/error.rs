//! Error taxonomy for device communication, with the numeric codes used in
//! synthetic broadcast messages.
use vstd::prelude::*;

use crate::encoding::dec_chars;

verus! {

use vstd::string::StringExecFns;

/// Connection established.
pub const ERR_SUCCESS: u32 = 0;

/// Invalid JSON response from the device.
pub const ERR_JSON: u32 = 900;

/// Network error: unable to connect.
pub const ERR_CONNECT: u32 = 901;

/// Timeout waiting for the device.
pub const ERR_TIMEOUT: u32 = 902;

/// Specified value out of range.
pub const ERR_RANGE: u32 = 903;

/// Unexpected payload from the device.
pub const ERR_PAYLOAD: u32 = 904;

/// Network error: device unreachable.
pub const ERR_OFFLINE: u32 = 905;

/// Device in unknown state.
pub const ERR_STATE: u32 = 906;

/// Function not supported by the device.
pub const ERR_FUNCTION: u32 = 907;

/// device22 compatibility mode detected; the caller should retry.
pub const ERR_DEVTYPE: u32 = 908;

/// Missing cloud key and secret.
pub const ERR_CLOUDKEY: u32 = 909;

/// Invalid JSON response from the cloud.
pub const ERR_CLOUDRESP: u32 = 910;

/// Unable to get a cloud token.
pub const ERR_CLOUDTOKEN: u32 = 911;

/// Missing function parameters.
pub const ERR_PARAMS: u32 = 912;

/// Error response from the cloud.
pub const ERR_CLOUD: u32 = 913;

/// Wrong local key or protocol version.
pub const ERR_KEY_OR_VER: u32 = 914;

/// Device id registered twice.
pub const ERR_DUPLICATE: u32 = 915;

/// Every error that can occur when communicating with a device.
#[derive(Debug, Clone)]
pub enum TuyaError {
    /// I/O error (network, timeout, ...), with its text.
    Io(String),
    /// JSON serialization or deserialization error.
    Json(String),
    /// A message from the device could not be decrypted.
    DecryptionFailed,
    /// A message for the device could not be encrypted.
    EncryptionFailed,
    /// The payload received from the device was malformed.
    InvalidPayload,
    /// A request timed out.
    Timeout,
    /// The CRC32 footer of a received frame did not match.
    CrcMismatch,
    /// The HMAC-SHA256 footer of a received frame did not match.
    HmacMismatch,
    /// The TCP connection could not be established.
    ConnectionFailed,
    /// The message header was invalid.
    InvalidHeader,
    /// Framing-level decode failure, with its text.
    DecodeError(String),
    /// The device is unreachable or disconnected.
    Offline,
    /// Session-key negotiation failed.
    HandshakeFailed,
    /// Generic wrong-key-or-version failure.
    KeyOrVersionError,
    /// A device id was registered twice.
    DuplicateDevice(String),
    /// A device id was not found.
    DeviceNotFound(String),
}

impl TuyaError {
    /// The numeric code of this error, as used in synthetic broadcasts.
    pub open spec fn spec_code(&self) -> u32 {
        match self {
            TuyaError::Io(_) => ERR_CONNECT,
            TuyaError::Json(_) => ERR_JSON,
            TuyaError::DecryptionFailed => ERR_KEY_OR_VER,
            TuyaError::EncryptionFailed => ERR_KEY_OR_VER,
            TuyaError::InvalidPayload => ERR_PAYLOAD,
            TuyaError::CrcMismatch => ERR_KEY_OR_VER,
            TuyaError::HmacMismatch => ERR_KEY_OR_VER,
            TuyaError::ConnectionFailed => ERR_CONNECT,
            TuyaError::InvalidHeader => ERR_PAYLOAD,
            TuyaError::DecodeError(_) => ERR_PAYLOAD,
            TuyaError::Offline => ERR_OFFLINE,
            TuyaError::HandshakeFailed => ERR_KEY_OR_VER,
            TuyaError::KeyOrVersionError => ERR_KEY_OR_VER,
            TuyaError::DuplicateDevice(_) => ERR_DUPLICATE,
            TuyaError::DeviceNotFound(_) => ERR_JSON,
            TuyaError::Timeout => ERR_TIMEOUT,
        }
    }

    /// The numeric code of this error.
    pub fn code(&self) -> (r: u32)
        ensures
            r == self.spec_code(),
    {
        match self {
            TuyaError::Io(_) => ERR_CONNECT,
            TuyaError::Json(_) => ERR_JSON,
            TuyaError::DecryptionFailed => ERR_KEY_OR_VER,
            TuyaError::EncryptionFailed => ERR_KEY_OR_VER,
            TuyaError::InvalidPayload => ERR_PAYLOAD,
            TuyaError::CrcMismatch => ERR_KEY_OR_VER,
            TuyaError::HmacMismatch => ERR_KEY_OR_VER,
            TuyaError::ConnectionFailed => ERR_CONNECT,
            TuyaError::InvalidHeader => ERR_PAYLOAD,
            TuyaError::DecodeError(_) => ERR_PAYLOAD,
            TuyaError::Offline => ERR_OFFLINE,
            TuyaError::HandshakeFailed => ERR_KEY_OR_VER,
            TuyaError::KeyOrVersionError => ERR_KEY_OR_VER,
            TuyaError::DuplicateDevice(_) => ERR_DUPLICATE,
            TuyaError::DeviceNotFound(_) => ERR_JSON,
            TuyaError::Timeout => ERR_TIMEOUT,
        }
    }

    /// The representative error of a numeric code.
    pub fn from_code(code: u32) -> (r: Self)
        ensures
            code == ERR_JSON ==> (r matches TuyaError::Json(s) && s@
                == "Generic JSON error"@),
            code == ERR_CONNECT ==> r is ConnectionFailed,
            code == ERR_TIMEOUT ==> r is Timeout,
            code == ERR_OFFLINE ==> r is Offline,
            code == ERR_KEY_OR_VER ==> r is KeyOrVersionError,
            code == ERR_DUPLICATE ==> (r matches TuyaError::DuplicateDevice(s) && s@
                == "Unknown ID"@),
            code == ERR_PAYLOAD ==> r is InvalidPayload,
            !(code == ERR_JSON || code == ERR_CONNECT || code == ERR_TIMEOUT || code
                == ERR_OFFLINE || code == ERR_KEY_OR_VER || code == ERR_DUPLICATE || code
                == ERR_PAYLOAD) ==> (r matches TuyaError::Io(s) && s@
                == "Unknown error code: "@ + dec_chars(code as nat)),
    {
        match code {
            ERR_JSON => TuyaError::Json(String::from_str("Generic JSON error")),
            ERR_CONNECT => TuyaError::ConnectionFailed,
            ERR_TIMEOUT => TuyaError::Timeout,
            ERR_OFFLINE => TuyaError::Offline,
            ERR_KEY_OR_VER => TuyaError::KeyOrVersionError,
            ERR_DUPLICATE => TuyaError::DuplicateDevice(String::from_str("Unknown ID")),
            ERR_PAYLOAD => TuyaError::InvalidPayload,
            _ => {
                let mut s = String::from_str("Unknown error code: ");
                let d = crate::encoding::u64_to_string(code as u64);
                s.append(d.as_str());
                TuyaError::Io(s)
            },
        }
    }
}

/// The text that goes with a numeric error code.
pub open spec fn spec_error_message(code: u32) -> Seq<char> {
    if code == ERR_SUCCESS {
        "Connection Successful"@
    } else if code == ERR_JSON {
        "Invalid JSON Response from Device"@
    } else if code == ERR_CONNECT {
        "Network Error: Unable to Connect"@
    } else if code == ERR_TIMEOUT {
        "Timeout Waiting for Device"@
    } else if code == ERR_RANGE {
        "Specified Value Out of Range"@
    } else if code == ERR_PAYLOAD {
        "Unexpected Payload from Device"@
    } else if code == ERR_OFFLINE {
        "Network Error: Device Unreachable"@
    } else if code == ERR_STATE {
        "Device in Unknown State"@
    } else if code == ERR_FUNCTION {
        "Function Not Supported by Device"@
    } else if code == ERR_DEVTYPE {
        "Device22 Detected: Retry Command"@
    } else if code == ERR_CLOUDKEY {
        "Missing Tuya Cloud Key and Secret"@
    } else if code == ERR_CLOUDRESP {
        "Invalid JSON Response from Cloud"@
    } else if code == ERR_CLOUDTOKEN {
        "Unable to Get Cloud Token"@
    } else if code == ERR_PARAMS {
        "Missing Function Parameters"@
    } else if code == ERR_CLOUD {
        "Error Response from Tuya Cloud"@
    } else if code == ERR_KEY_OR_VER {
        "Check device key or version"@
    } else if code == ERR_DUPLICATE {
        "Device ID already exists"@
    } else {
        "Unknown Error"@
    }
}

/// The text that goes with a numeric error code.
pub fn get_error_message(code: u32) -> (r: &'static str)
    ensures
        r@ == spec_error_message(code),
        r.is_ascii(),
{
    proof {
        reveal_strlit("Connection Successful");
        reveal_strlit("Invalid JSON Response from Device");
        reveal_strlit("Network Error: Unable to Connect");
        reveal_strlit("Timeout Waiting for Device");
        reveal_strlit("Specified Value Out of Range");
        reveal_strlit("Unexpected Payload from Device");
        reveal_strlit("Network Error: Device Unreachable");
        reveal_strlit("Device in Unknown State");
        reveal_strlit("Function Not Supported by Device");
        reveal_strlit("Device22 Detected: Retry Command");
        reveal_strlit("Missing Tuya Cloud Key and Secret");
        reveal_strlit("Invalid JSON Response from Cloud");
        reveal_strlit("Unable to Get Cloud Token");
        reveal_strlit("Missing Function Parameters");
        reveal_strlit("Error Response from Tuya Cloud");
        reveal_strlit("Check device key or version");
        reveal_strlit("Device ID already exists");
        reveal_strlit("Unknown Error");
    }
    if code == ERR_SUCCESS {
        "Connection Successful"
    } else if code == ERR_JSON {
        "Invalid JSON Response from Device"
    } else if code == ERR_CONNECT {
        "Network Error: Unable to Connect"
    } else if code == ERR_TIMEOUT {
        "Timeout Waiting for Device"
    } else if code == ERR_RANGE {
        "Specified Value Out of Range"
    } else if code == ERR_PAYLOAD {
        "Unexpected Payload from Device"
    } else if code == ERR_OFFLINE {
        "Network Error: Device Unreachable"
    } else if code == ERR_STATE {
        "Device in Unknown State"
    } else if code == ERR_FUNCTION {
        "Function Not Supported by Device"
    } else if code == ERR_DEVTYPE {
        "Device22 Detected: Retry Command"
    } else if code == ERR_CLOUDKEY {
        "Missing Tuya Cloud Key and Secret"
    } else if code == ERR_CLOUDRESP {
        "Invalid JSON Response from Cloud"
    } else if code == ERR_CLOUDTOKEN {
        "Unable to Get Cloud Token"
    } else if code == ERR_PARAMS {
        "Missing Function Parameters"
    } else if code == ERR_CLOUD {
        "Error Response from Tuya Cloud"
    } else if code == ERR_KEY_OR_VER {
        "Check device key or version"
    } else if code == ERR_DUPLICATE {
        "Device ID already exists"
    } else {
        "Unknown Error"
    }
}

} // verus!
