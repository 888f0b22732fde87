//! The wire protocol: packet framing for the `0x55AA` and `0x6699`
//! formats, header parsing, and CRC32 / HMAC-SHA256 integrity.
//!
//! Packing and unpacking are specified byte-exactly over `Seq<u8>`; the
//! checksum primitives and the GCM seal come from outside crates through
//! trusted wrappers. Unpacking what `pack_message` built gives the message
//! back, stated as a postcondition of `pack_message` itself.
use vstd::prelude::*;

use crate::crypto::{gcm_open, gcm_seal, TuyaCipher};
use crate::encoding::bytes_eq;
use crate::error::TuyaError;

use hmac::{KeyInit, Mac};

use vstd::string::StringExecFns as _;

verus! {

/// Frame prefix of the classic wire format.
pub const PREFIX_55AA: u32 = 0x000055AA;

/// Frame prefix of the GCM wire format (versions 3.5 and up).
pub const PREFIX_6699: u32 = 0x00006699;

/// Frame suffix of the classic wire format.
pub const SUFFIX_55AA: u32 = 0x0000AA55;

/// Frame suffix of the GCM wire format.
pub const SUFFIX_6699: u32 = 0x00009966;

/// The four big-endian bytes of a 32-bit value.
pub open spec fn be32(x: u32) -> Seq<u8> {
    seq![
        ((x >> 24) & 0xff) as u8,
        ((x >> 16) & 0xff) as u8,
        ((x >> 8) & 0xff) as u8,
        (x & 0xff) as u8,
    ]
}

/// The 32-bit value of four big-endian bytes.
pub open spec fn u32_from_be(s: Seq<u8>) -> u32
    recommends
        s.len() == 4,
{
    ((s[0] as u32) << 24) | ((s[1] as u32) << 16) | ((s[2] as u32) << 8) | (s[3] as u32)
}

/// Reading back the four big-endian bytes of a value gives the value.
pub proof fn lemma_be32_roundtrip(x: u32)
    ensures
        u32_from_be(be32(x)) == x,
{
    let b0 = ((x >> 24) & 0xff) as u8;
    let b1 = ((x >> 16) & 0xff) as u8;
    let b2 = ((x >> 8) & 0xff) as u8;
    let b3 = (x & 0xff) as u8;
    assert(((b0 as u32) << 24) | ((b1 as u32) << 16) | ((b2 as u32) << 8) | (b3 as u32) == x)
        by (bit_vector)
        requires
            b0 == ((x >> 24) & 0xff) as u8,
            b1 == ((x >> 16) & 0xff) as u8,
            b2 == ((x >> 8) & 0xff) as u8,
            b3 == (x & 0xff) as u8,
    ;
}

/// Append the four big-endian bytes of `x`.
pub fn push_be32(out: &mut Vec<u8>, x: u32)
    requires
        old(out)@.len() + 4 <= usize::MAX,
    ensures
        final(out)@ == old(out)@ + be32(x),
{
    out.push(((x >> 24) & 0xff) as u8);
    out.push(((x >> 16) & 0xff) as u8);
    out.push(((x >> 8) & 0xff) as u8);
    out.push((x & 0xff) as u8);
    proof {
        assert(out@ =~= old(out)@ + be32(x));
    }
}

/// Read a 32-bit big-endian value at `pos`.
pub fn read_be32(data: &[u8], pos: usize) -> (r: u32)
    requires
        pos + 4 <= data@.len(),
    ensures
        r == u32_from_be(data@.subrange(pos as int, pos + 4)),
{
    let r = ((data[pos] as u32) << 24) | ((data[pos + 1] as u32) << 16) | ((data[pos + 2] as u32)
        << 8) | (data[pos + 3] as u32);
    proof {
        let s = data@.subrange(pos as int, pos + 4);
        assert(s[0] == data@[pos as int] && s[1] == data@[pos + 1] && s[2] == data@[pos + 2] && s[3]
            == data@[pos + 3]);
    }
    r
}

/// The documented command bytes of the protocol.
#[derive(Debug, Clone, Copy, PartialEq, Eq, Structural)]
pub enum CommandType {
    ApConfig,
    Active,
    SessKeyNegStart,
    SessKeyNegResp,
    SessKeyNegFinish,
    Unbind,
    Control,
    Status,
    HeartBeat,
    DpQuery,
    QueryWifi,
    TokenBind,
    ControlNew,
    EnableWifi,
    WifiInfo,
    DpQueryNew,
    SceneExecute,
    UpdateDps,
    UdpNew,
    ApConfigNew,
    LanGwActive,
    LanSubDevRequest,
    LanDeleteSubDev,
    LanReportSubDev,
    LanScene,
    LanPublishCloudConfig,
    LanExportAppConfig,
    LanPublishAppConfig,
    ReqDevInfo,
    LanExtStream,
}

impl CommandType {
    /// The command byte of each command.
    pub open spec fn spec_value(self) -> u32 {
        match self {
            CommandType::ApConfig => 0x01,
            CommandType::Active => 0x02,
            CommandType::SessKeyNegStart => 0x03,
            CommandType::SessKeyNegResp => 0x04,
            CommandType::SessKeyNegFinish => 0x05,
            CommandType::Unbind => 0x06,
            CommandType::Control => 0x07,
            CommandType::Status => 0x08,
            CommandType::HeartBeat => 0x09,
            CommandType::DpQuery => 0x0a,
            CommandType::QueryWifi => 0x0b,
            CommandType::TokenBind => 0x0c,
            CommandType::ControlNew => 0x0d,
            CommandType::EnableWifi => 0x0e,
            CommandType::WifiInfo => 0x0f,
            CommandType::DpQueryNew => 0x10,
            CommandType::SceneExecute => 0x11,
            CommandType::UpdateDps => 0x12,
            CommandType::UdpNew => 0x13,
            CommandType::ApConfigNew => 0x14,
            CommandType::LanGwActive => 0xfa,
            CommandType::LanSubDevRequest => 0xfb,
            CommandType::LanDeleteSubDev => 0xfc,
            CommandType::LanReportSubDev => 0xfd,
            CommandType::LanScene => 0xfe,
            CommandType::LanPublishCloudConfig => 0xff,
            CommandType::LanExportAppConfig => 0x22,
            CommandType::LanPublishAppConfig => 0x23,
            CommandType::ReqDevInfo => 0x25,
            CommandType::LanExtStream => 0x40,
        }
    }

    /// The command byte of this command.
    pub fn value(self) -> (r: u32)
        ensures
            r == self.spec_value(),
    {
        match self {
            CommandType::ApConfig => 0x01,
            CommandType::Active => 0x02,
            CommandType::SessKeyNegStart => 0x03,
            CommandType::SessKeyNegResp => 0x04,
            CommandType::SessKeyNegFinish => 0x05,
            CommandType::Unbind => 0x06,
            CommandType::Control => 0x07,
            CommandType::Status => 0x08,
            CommandType::HeartBeat => 0x09,
            CommandType::DpQuery => 0x0a,
            CommandType::QueryWifi => 0x0b,
            CommandType::TokenBind => 0x0c,
            CommandType::ControlNew => 0x0d,
            CommandType::EnableWifi => 0x0e,
            CommandType::WifiInfo => 0x0f,
            CommandType::DpQueryNew => 0x10,
            CommandType::SceneExecute => 0x11,
            CommandType::UpdateDps => 0x12,
            CommandType::UdpNew => 0x13,
            CommandType::ApConfigNew => 0x14,
            CommandType::LanGwActive => 0xfa,
            CommandType::LanSubDevRequest => 0xfb,
            CommandType::LanDeleteSubDev => 0xfc,
            CommandType::LanReportSubDev => 0xfd,
            CommandType::LanScene => 0xfe,
            CommandType::LanPublishCloudConfig => 0xff,
            CommandType::LanExportAppConfig => 0x22,
            CommandType::LanPublishAppConfig => 0x23,
            CommandType::ReqDevInfo => 0x25,
            CommandType::LanExtStream => 0x40,
        }
    }

    /// The command of a command byte, if any.
    pub open spec fn spec_from_u32(v: u32) -> Option<CommandType> {
        if v == 0x01 {
            Some(CommandType::ApConfig)
        } else if v == 0x02 {
            Some(CommandType::Active)
        } else if v == 0x03 {
            Some(CommandType::SessKeyNegStart)
        } else if v == 0x04 {
            Some(CommandType::SessKeyNegResp)
        } else if v == 0x05 {
            Some(CommandType::SessKeyNegFinish)
        } else if v == 0x06 {
            Some(CommandType::Unbind)
        } else if v == 0x07 {
            Some(CommandType::Control)
        } else if v == 0x08 {
            Some(CommandType::Status)
        } else if v == 0x09 {
            Some(CommandType::HeartBeat)
        } else if v == 0x0a {
            Some(CommandType::DpQuery)
        } else if v == 0x0b {
            Some(CommandType::QueryWifi)
        } else if v == 0x0c {
            Some(CommandType::TokenBind)
        } else if v == 0x0d {
            Some(CommandType::ControlNew)
        } else if v == 0x0e {
            Some(CommandType::EnableWifi)
        } else if v == 0x0f {
            Some(CommandType::WifiInfo)
        } else if v == 0x10 {
            Some(CommandType::DpQueryNew)
        } else if v == 0x11 {
            Some(CommandType::SceneExecute)
        } else if v == 0x12 {
            Some(CommandType::UpdateDps)
        } else if v == 0x13 {
            Some(CommandType::UdpNew)
        } else if v == 0x14 {
            Some(CommandType::ApConfigNew)
        } else if v == 0xfa {
            Some(CommandType::LanGwActive)
        } else if v == 0xfb {
            Some(CommandType::LanSubDevRequest)
        } else if v == 0xfc {
            Some(CommandType::LanDeleteSubDev)
        } else if v == 0xfd {
            Some(CommandType::LanReportSubDev)
        } else if v == 0xfe {
            Some(CommandType::LanScene)
        } else if v == 0xff {
            Some(CommandType::LanPublishCloudConfig)
        } else if v == 0x22 {
            Some(CommandType::LanExportAppConfig)
        } else if v == 0x23 {
            Some(CommandType::LanPublishAppConfig)
        } else if v == 0x25 {
            Some(CommandType::ReqDevInfo)
        } else if v == 0x40 {
            Some(CommandType::LanExtStream)
        } else {
            None
        }
    }

    /// The command of a command byte, if any.
    pub fn from_u32(v: u32) -> (r: Option<CommandType>)
        ensures
            r == CommandType::spec_from_u32(v),
    {
        match v {
            0x01 => Some(CommandType::ApConfig),
            0x02 => Some(CommandType::Active),
            0x03 => Some(CommandType::SessKeyNegStart),
            0x04 => Some(CommandType::SessKeyNegResp),
            0x05 => Some(CommandType::SessKeyNegFinish),
            0x06 => Some(CommandType::Unbind),
            0x07 => Some(CommandType::Control),
            0x08 => Some(CommandType::Status),
            0x09 => Some(CommandType::HeartBeat),
            0x0a => Some(CommandType::DpQuery),
            0x0b => Some(CommandType::QueryWifi),
            0x0c => Some(CommandType::TokenBind),
            0x0d => Some(CommandType::ControlNew),
            0x0e => Some(CommandType::EnableWifi),
            0x0f => Some(CommandType::WifiInfo),
            0x10 => Some(CommandType::DpQueryNew),
            0x11 => Some(CommandType::SceneExecute),
            0x12 => Some(CommandType::UpdateDps),
            0x13 => Some(CommandType::UdpNew),
            0x14 => Some(CommandType::ApConfigNew),
            0xfa => Some(CommandType::LanGwActive),
            0xfb => Some(CommandType::LanSubDevRequest),
            0xfc => Some(CommandType::LanDeleteSubDev),
            0xfd => Some(CommandType::LanReportSubDev),
            0xfe => Some(CommandType::LanScene),
            0xff => Some(CommandType::LanPublishCloudConfig),
            0x22 => Some(CommandType::LanExportAppConfig),
            0x23 => Some(CommandType::LanPublishAppConfig),
            0x25 => Some(CommandType::ReqDevInfo),
            0x40 => Some(CommandType::LanExtStream),
            _ => None,
        }
    }
}

/// A protocol version. `Auto` means the version is learned from discovery;
/// 3.2 is a pseudo-version used by 3.3 devices with a firmware quirk and is
/// treated like 3.3 on the wire while starting in device22 mode.
#[derive(Debug, Clone, Copy, PartialEq, Eq, Structural)]
pub enum Version {
    V3_1,
    V3_2,
    V3_3,
    V3_4,
    V3_5,
    Auto,
}

impl Version {
    /// Ten times the numeric version; 0 for `Auto`.
    pub open spec fn spec_tenths(self) -> u32 {
        match self {
            Version::V3_1 => 31,
            Version::V3_2 => 32,
            Version::V3_3 => 33,
            Version::V3_4 => 34,
            Version::V3_5 => 35,
            Version::Auto => 0,
        }
    }

    /// Ten times the numeric version; 0 for `Auto`.
    pub fn tenths(self) -> (r: u32)
        ensures
            r == self.spec_tenths(),
    {
        match self {
            Version::V3_1 => 31,
            Version::V3_2 => 32,
            Version::V3_3 => 33,
            Version::V3_4 => 34,
            Version::V3_5 => 35,
            Version::Auto => 0,
        }
    }

    /// The three-character on-wire form, "0.0" for `Auto`.
    pub open spec fn spec_tag(self) -> Seq<char> {
        match self {
            Version::V3_1 => "3.1"@,
            Version::V3_2 => "3.2"@,
            Version::V3_3 => "3.3"@,
            Version::V3_4 => "3.4"@,
            Version::V3_5 => "3.5"@,
            Version::Auto => "0.0"@,
        }
    }

    /// The three-byte ASCII on-wire form of the version tag.
    pub open spec fn spec_tag_bytes(self) -> Seq<u8> {
        crate::encoding::ascii_bytes(self.spec_tag())
    }

    /// Every version tag is three characters.
    pub proof fn lemma_tag_len(self)
        ensures
            self.spec_tag().len() == 3,
            self.spec_tag_bytes().len() == 3,
    {
        reveal_strlit("3.1");
        reveal_strlit("3.2");
        reveal_strlit("3.3");
        reveal_strlit("3.4");
        reveal_strlit("3.5");
        reveal_strlit("0.0");
    }

    /// The on-wire version tag.
    pub fn tag_str(self) -> (r: &'static str)
        ensures
            r@ == self.spec_tag(),
            r.is_ascii(),
            r@.len() == 3,
    {
        proof {
            reveal_strlit("3.1");
            reveal_strlit("3.2");
            reveal_strlit("3.3");
            reveal_strlit("3.4");
            reveal_strlit("3.5");
            reveal_strlit("0.0");
        }
        match self {
            Version::V3_1 => "3.1",
            Version::V3_2 => "3.2",
            Version::V3_3 => "3.3",
            Version::V3_4 => "3.4",
            Version::V3_5 => "3.5",
            Version::Auto => "0.0",
        }
    }

    /// The on-wire version tag, as bytes.
    pub fn tag_bytes(self) -> (r: Vec<u8>)
        ensures
            r@ == self.spec_tag_bytes(),
            r@.len() == 3,
    {
        let mut out: Vec<u8> = Vec::new();
        crate::encoding::append_str(&mut out, self.tag_str());
        proof {
            assert(out@ =~= self.spec_tag_bytes());
        }
        out
    }

    /// The version named by a tag, if any; "3.2" is accepted.
    pub open spec fn spec_from_tag(b: Seq<u8>) -> Option<Version> {
        if b == Version::V3_1.spec_tag_bytes() {
            Some(Version::V3_1)
        } else if b == Version::V3_2.spec_tag_bytes() {
            Some(Version::V3_2)
        } else if b == Version::V3_3.spec_tag_bytes() {
            Some(Version::V3_3)
        } else if b == Version::V3_4.spec_tag_bytes() {
            Some(Version::V3_4)
        } else if b == Version::V3_5.spec_tag_bytes() {
            Some(Version::V3_5)
        } else {
            None
        }
    }

    /// The version named by a tag, if any.
    pub fn from_tag_bytes(b: &[u8]) -> (r: Option<Version>)
        ensures
            r == Version::spec_from_tag(b@),
    {
        if bytes_eq(b, Version::V3_1.tag_bytes().as_slice()) {
            Some(Version::V3_1)
        } else if bytes_eq(b, Version::V3_2.tag_bytes().as_slice()) {
            Some(Version::V3_2)
        } else if bytes_eq(b, Version::V3_3.tag_bytes().as_slice()) {
            Some(Version::V3_3)
        } else if bytes_eq(b, Version::V3_4.tag_bytes().as_slice()) {
            Some(Version::V3_4)
        } else if bytes_eq(b, Version::V3_5.tag_bytes().as_slice()) {
            Some(Version::V3_5)
        } else {
            None
        }
    }
}

/// A protocol message.
#[derive(Debug, Clone)]
pub struct TuyaMessage {
    /// Sequence number.
    pub seqno: u32,
    /// Command code.
    pub cmd: u32,
    /// Return code, where the frame carried one.
    pub retcode: Option<u32>,
    /// The payload.
    pub payload: Vec<u8>,
    /// Frame prefix, `0x55AA` or `0x6699`.
    pub prefix: u32,
    /// Initialization vector, carried by `0x6699` frames.
    pub iv: Option<Vec<u8>>,
}

/// The mathematical model of a protocol message.
#[verifier::ext_equal]
pub struct SpecMessage {
    /// Sequence number.
    pub seqno: u32,
    /// Command code.
    pub cmd: u32,
    /// Return code, where the frame carried one.
    pub retcode: Option<u32>,
    /// The payload bytes.
    pub payload: Seq<u8>,
    /// Frame prefix.
    pub prefix: u32,
    /// Initialization vector bytes, for `0x6699` frames.
    pub iv: Option<Seq<u8>>,
}

impl View for TuyaMessage {
    type V = SpecMessage;

    open spec fn view(&self) -> SpecMessage {
        SpecMessage {
            seqno: self.seqno,
            cmd: self.cmd,
            retcode: self.retcode,
            payload: self.payload@,
            prefix: self.prefix,
            iv: match self.iv {
                Some(ref v) => Some(v@),
                None => None,
            },
        }
    }
}

impl TuyaMessage {
    /// An empty `0x55AA` message: all fields zero or absent.
    pub fn new_default() -> (r: TuyaMessage)
        ensures
            r@.seqno == 0,
            r@.cmd == 0,
            r@.retcode is None,
            r@.payload == Seq::<u8>::empty(),
            r@.prefix == PREFIX_55AA,
            r@.iv is None,
    {
        TuyaMessage {
            seqno: 0,
            cmd: 0,
            retcode: None,
            payload: Vec::new(),
            prefix: PREFIX_55AA,
            iv: None,
        }
    }
}

impl Default for TuyaMessage {
    /// An empty `0x55AA` message.
    fn default() -> (r: TuyaMessage)
        ensures
            r@.seqno == 0,
            r@.cmd == 0,
            r@.retcode is None,
            r@.payload == Seq::<u8>::empty(),
            r@.prefix == PREFIX_55AA,
            r@.iv is None,
    {
        TuyaMessage::new_default()
    }
}

/// A parsed frame header.
#[derive(Debug, Clone, Copy, PartialEq, Eq, Structural)]
pub struct TuyaHeader {
    /// Frame prefix.
    pub prefix: u32,
    /// Sequence number.
    pub seqno: u32,
    /// Command code.
    pub cmd: u32,
    /// The length field: payload plus footer for `0x55AA`, IV plus
    /// ciphertext-with-tag for `0x6699`.
    pub payload_len: u32,
    /// Total frame length, header and suffix included.
    pub total_length: u32,
}

/// The CRC32 (ISO-HDLC) checksum of a byte sequence: a function of the
/// data alone.
pub uninterp spec fn crc32_of(data: Seq<u8>) -> u32;

/// One byte of the HMAC-SHA256 of `data` under `key`: a function of key
/// and data alone.
pub uninterp spec fn hmac_sha256_byte(key: Seq<u8>, data: Seq<u8>, i: int) -> u8;

/// The 32-byte HMAC-SHA256 of `data` under `key`.
pub open spec fn hmac_sha256_of(key: Seq<u8>, data: Seq<u8>) -> Seq<u8> {
    Seq::new(32, |i: int| hmac_sha256_byte(key, data, i))
}

/// Relies on `crc::Crc` with the `CRC_32_ISO_HDLC` algorithm: the checksum
/// is a function of the data alone.
#[verifier::external_body]
fn crc32(data: &[u8]) -> (r: u32)
    ensures
        r == crc32_of(data@),
{
    crc::Crc::<u32>::new(&crc::CRC_32_ISO_HDLC).checksum(data)
}

/// Relies on `hmac::Hmac<sha2::Sha256>`: the 32-byte tag is a function of
/// key and data alone; any key length is accepted.
#[verifier::external_body]
pub(crate) fn hmac_sha256(key: &[u8], data: &[u8]) -> (r: Vec<u8>)
    ensures
        r@ == hmac_sha256_of(key@, data@),
        forall|i: int| 0 <= i < 32 ==> r@[i] == hmac_sha256_byte(key@, data@, i),
{
    let mut mac = <hmac::Hmac<sha2::Sha256> as KeyInit>::new_from_slice(key)
        .expect("HMAC accepts any key length");
    mac.update(data);
    mac.finalize().into_bytes().to_vec()
}

/// Why unpacking failed; `spec_unpack_error` gives the error each case
/// raises.
#[derive(Debug, Clone, Copy, PartialEq, Eq, Structural)]
pub enum UnpackErr {
    /// Fewer than 16 bytes of header.
    HeaderShort,
    /// A `0x6699` frame with fewer than 18 bytes of header.
    Header6699Short,
    /// The length field does not fit a frame length in 32 bits.
    LengthOverflow,
    /// The prefix names no known wire format.
    BadPrefix,
    /// The data is shorter than the total length the header gives.
    DataShort,
    /// The `0x55AA` payload region would end before the header does.
    PayloadEnd,
    /// The CRC32 footer did not match.
    CrcMismatch,
    /// The HMAC-SHA256 footer did not match.
    HmacMismatch,
    /// A `0x6699` frame without a 16-byte key.
    MissingKey,
    /// A `0x6699` frame too short to hold IV and tag.
    PayloadShort,
    /// The GCM payload did not authenticate.
    DecryptFailed,
}

/// The error that `unpack_message` raises for each failure case.
pub open spec fn spec_unpack_error(k: UnpackErr, e: TuyaError) -> bool {
    match k {
        UnpackErr::HeaderShort => e matches TuyaError::DecodeError(s) && s@ == "Header too short"@,
        UnpackErr::Header6699Short => e matches TuyaError::DecodeError(s) && s@
            == "6699 header too short"@,
        UnpackErr::LengthOverflow => e is InvalidHeader,
        UnpackErr::BadPrefix => e is InvalidHeader,
        UnpackErr::DataShort => e matches TuyaError::DecodeError(s) && s@
            == "Data shorter than expected"@,
        UnpackErr::PayloadEnd => e matches TuyaError::DecodeError(s) && s@
            == "Payload end is before header end"@,
        UnpackErr::CrcMismatch => e is CrcMismatch,
        UnpackErr::HmacMismatch => e is HmacMismatch,
        UnpackErr::MissingKey => e is EncryptionFailed,
        UnpackErr::PayloadShort => e is InvalidPayload,
        UnpackErr::DecryptFailed => e is DecryptionFailed,
    }
}

/// Parse a frame header from the start of `data`.
pub open spec fn spec_parse_header(data: Seq<u8>) -> Result<TuyaHeader, UnpackErr> {
    if data.len() < 16 {
        Err(UnpackErr::HeaderShort)
    } else {
        let prefix = u32_from_be(data.subrange(0, 4));
        if prefix == PREFIX_55AA {
            let payload_len = u32_from_be(data.subrange(12, 16));
            if payload_len > u32::MAX - 16 {
                Err(UnpackErr::LengthOverflow)
            } else {
                Ok(
                    TuyaHeader {
                        prefix,
                        seqno: u32_from_be(data.subrange(4, 8)),
                        cmd: u32_from_be(data.subrange(8, 12)),
                        payload_len,
                        total_length: (payload_len + 16) as u32,
                    },
                )
            }
        } else if prefix == PREFIX_6699 {
            if data.len() < 18 {
                Err(UnpackErr::Header6699Short)
            } else {
                let payload_len = u32_from_be(data.subrange(14, 18));
                if payload_len > u32::MAX - 22 {
                    Err(UnpackErr::LengthOverflow)
                } else {
                    Ok(
                        TuyaHeader {
                            prefix,
                            seqno: u32_from_be(data.subrange(6, 10)),
                            cmd: u32_from_be(data.subrange(10, 14)),
                            payload_len,
                            total_length: (payload_len + 22) as u32,
                        },
                    )
                }
            }
        } else {
            Err(UnpackErr::BadPrefix)
        }
    }
}

/// Parse a frame header: prefix, sequence number, command and lengths.
///
/// `total_length` is `payload_len + 16` for `0x55AA` frames and
/// `payload_len + 22` for `0x6699` frames (whose 18-byte extended header
/// and 4-byte suffix are not counted by the length field).
pub fn parse_header(data: &[u8]) -> (r: Result<TuyaHeader, TuyaError>)
    ensures
        match r {
            Ok(h) => spec_parse_header(data@) == Ok::<TuyaHeader, UnpackErr>(h),
            Err(e) => spec_parse_header(data@) matches Err(k) && spec_unpack_error(k, e),
        },
{
    proof {
        reveal_strlit("Header too short");
        reveal_strlit("6699 header too short");
    }
    if data.len() < 16 {
        return Err(
            TuyaError::DecodeError(String::from_str("Header too short")),
        );
    }
    let prefix = read_be32(data, 0);
    if prefix == PREFIX_55AA {
        let payload_len = read_be32(data, 12);
        if payload_len > u32::MAX - 16 {
            return Err(TuyaError::InvalidHeader);
        }
        Ok(
            TuyaHeader {
                prefix,
                seqno: read_be32(data, 4),
                cmd: read_be32(data, 8),
                payload_len,
                total_length: payload_len + 16,
            },
        )
    } else if prefix == PREFIX_6699 {
        if data.len() < 18 {
            return Err(
                TuyaError::DecodeError(String::from_str("6699 header too short")),
            );
        }
        let payload_len = read_be32(data, 14);
        if payload_len > u32::MAX - 22 {
            return Err(TuyaError::InvalidHeader);
        }
        Ok(
            TuyaHeader {
                prefix,
                seqno: read_be32(data, 6),
                cmd: read_be32(data, 10),
                payload_len,
                total_length: payload_len + 22,
            },
        )
    } else {
        Err(TuyaError::InvalidHeader)
    }
}

/// Whether a payload region carries a leading 4-byte return code, by the
/// auto-detection rule: at least 4 bytes, not starting with `{`, and either
/// starting with a zero byte or followed (after the 4 code bytes) by `{` or
/// `3`.
pub open spec fn spec_detect_retcode(region: Seq<u8>) -> bool {
    region.len() >= 4 && region[0] != 123 && (region[0] == 0 || (region.len() > 4 && (region[4]
        == 123 || region[4] == 51)))
}

/// Split an optional return code off a payload region. `no_retcode` forces
/// the answer; `None` means auto-detect.
pub open spec fn spec_split_retcode(region: Seq<u8>, no_retcode: Option<bool>) -> (
    Option<u32>,
    Seq<u8>,
) {
    let parse = match no_retcode {
        Some(no) => !no,
        None => spec_detect_retcode(region),
    };
    if parse && region.len() >= 4 {
        (Some(u32_from_be(region.take(4))), region.skip(4))
    } else {
        (None, region)
    }
}

/// Split an optional return code off a payload region.
fn split_retcode(region: &[u8], no_retcode: Option<bool>) -> (r: (Option<u32>, Vec<u8>))
    ensures
        r.0 == spec_split_retcode(region@, no_retcode).0,
        r.1@ == spec_split_retcode(region@, no_retcode).1,
{
    let parse = match no_retcode {
        Some(no) => !no,
        None => region.len() >= 4 && region[0] != 123 && (region[0] == 0 || (region.len() > 4 && (
        region[4] == 123 || region[4] == 51))),
    };
    if parse && region.len() >= 4 {
        let rc = read_be32(region, 0);
        let rest = vstd::slice::slice_to_vec(&region[4..region.len()]);
        proof {
            assert(region@.subrange(0, 4) =~= region@.take(4));
            assert(region@.subrange(4, region@.len() as int) =~= region@.skip(4));
        }
        (Some(rc), rest)
    } else {
        (None, vstd::slice::slice_to_vec(region))
    }
}

/// The key a caller handed over, as a byte sequence.
pub open spec fn okey(k: Option<&[u8]>) -> Option<Seq<u8>> {
    match k {
        Some(x) => Some(x@),
        None => None,
    }
}

/// Unpack a `0x55AA` frame whose header has been parsed and whose total
/// length fits the data.
pub open spec fn spec_unpack_55aa(
    data: Seq<u8>,
    key: Option<Seq<u8>>,
    h: TuyaHeader,
    no_retcode: Option<bool>,
) -> Result<SpecMessage, UnpackErr> {
    let total = h.total_length as int;
    let end_len: int = if key is Some {
        36
    } else {
        8
    };
    if total < end_len + 16 {
        Err(UnpackErr::PayloadEnd)
    } else {
        let payload_end = total - end_len;
        let split = spec_split_retcode(data.subrange(16, payload_end), no_retcode);
        let body = data.take(payload_end);
        let msg = SpecMessage {
            seqno: h.seqno,
            cmd: h.cmd,
            retcode: split.0,
            payload: split.1,
            prefix: h.prefix,
            iv: None,
        };
        match key {
            Some(k) => {
                if data.subrange(payload_end, payload_end + 32) == hmac_sha256_of(k, body) {
                    Ok(msg)
                } else {
                    Err(UnpackErr::HmacMismatch)
                }
            },
            None => {
                if u32_from_be(data.subrange(payload_end, payload_end + 4)) == crc32_of(body) {
                    Ok(msg)
                } else {
                    Err(UnpackErr::CrcMismatch)
                }
            },
        }
    }
}

/// Unpack a `0x6699` frame whose header has been parsed and whose total
/// length fits the data.
pub open spec fn spec_unpack_6699(
    data: Seq<u8>,
    key: Seq<u8>,
    h: TuyaHeader,
    no_retcode: Option<bool>,
) -> Result<SpecMessage, UnpackErr> {
    let total = h.total_length as int;
    if total < 50 {
        Err(UnpackErr::PayloadShort)
    } else if key.len() != 16 {
        Err(UnpackErr::MissingKey)
    } else {
        let region = data.subrange(18, total - 4);
        let iv = region.take(12);
        let ct = region.skip(12);
        let aad = data.subrange(4, 18);
        match gcm_open(key, iv, aad, ct) {
            None => Err(UnpackErr::DecryptFailed),
            Some(plain) => {
                let split = spec_split_retcode(plain, no_retcode);
                Ok(
                    SpecMessage {
                        seqno: h.seqno,
                        cmd: h.cmd,
                        retcode: split.0,
                        payload: split.1,
                        prefix: h.prefix,
                        iv: Some(iv),
                    },
                )
            },
        }
    }
}

/// Unpack a frame: parse the header unless one is given, check the length,
/// verify the footer or open the GCM payload, and split the return code.
pub open spec fn spec_unpack(
    data: Seq<u8>,
    key: Option<Seq<u8>>,
    hdr: Option<TuyaHeader>,
    no_retcode: Option<bool>,
) -> Result<SpecMessage, UnpackErr> {
    let hres = match hdr {
        Some(h) => Ok(h),
        None => spec_parse_header(data),
    };
    match hres {
        Err(k) => Err(k),
        Ok(h) => {
            if data.len() < h.total_length {
                Err(UnpackErr::DataShort)
            } else if h.prefix == PREFIX_55AA {
                spec_unpack_55aa(data, key, h, no_retcode)
            } else if h.prefix == PREFIX_6699 {
                match key {
                    None => Err(UnpackErr::MissingKey),
                    Some(k) => spec_unpack_6699(data, k, h, no_retcode),
                }
            } else {
                Err(UnpackErr::BadPrefix)
            }
        },
    }
}

/// Unpack binary data into a message, as `spec_unpack` describes.
///
/// With a key the `0x55AA` footer is a 32-byte HMAC-SHA256, without one a
/// 4-byte CRC32; a mismatch yields `HmacMismatch` or `CrcMismatch`, never a
/// silently accepted frame. `0x6699` frames require the key and are opened
/// with AES-GCM, with the header bytes after the prefix as associated data.
pub fn unpack_message(
    data: &[u8],
    hmac_key: Option<&[u8]>,
    header: Option<TuyaHeader>,
    no_retcode: Option<bool>,
) -> (r: Result<TuyaMessage, TuyaError>)
    ensures
        match r {
            Ok(m) => spec_unpack(data@, okey(hmac_key), header, no_retcode) == Ok::<
                SpecMessage,
                UnpackErr,
            >(m@),
            Err(e) => spec_unpack(data@, okey(hmac_key), header, no_retcode) matches Err(k)
                && spec_unpack_error(k, e),
        },
{
    proof {
        reveal_strlit("Data shorter than expected");
        reveal_strlit("Payload end is before header end");
    }
    let h = match header {
        Some(h) => h,
        None => parse_header(data)?,
    };
    if data.len() < h.total_length as usize {
        return Err(TuyaError::DecodeError(String::from_str("Data shorter than expected")));
    }
    let total = h.total_length as usize;
    if h.prefix == PREFIX_55AA {
        let end_len: usize = if hmac_key.is_some() {
            36
        } else {
            8
        };
        if total < end_len + 16 {
            return Err(
                TuyaError::DecodeError(String::from_str("Payload end is before header end")),
            );
        }
        let payload_end = total - end_len;
        let split = split_retcode(&data[16..payload_end], no_retcode);
        let body = &data[0..payload_end];
        proof {
            assert(body@ =~= data@.take(payload_end as int));
        }
        match hmac_key {
            Some(k) => {
                let mac = hmac_sha256(k, body);
                if !crate::encoding::bytes_eq(
                    mac.as_slice(),
                    &data[payload_end..payload_end + 32],
                ) {
                    return Err(TuyaError::HmacMismatch);
                }
            },
            None => {
                let calc = crc32(body);
                let recv = read_be32(data, payload_end);
                if calc != recv {
                    return Err(TuyaError::CrcMismatch);
                }
            },
        }
        Ok(
            TuyaMessage {
                seqno: h.seqno,
                cmd: h.cmd,
                retcode: split.0,
                payload: split.1,
                prefix: h.prefix,
                iv: None,
            },
        )
    } else if h.prefix == PREFIX_6699 {
        let key = match hmac_key {
            Some(k) => k,
            None => {
                return Err(TuyaError::EncryptionFailed);
            },
        };
        if total < 50 {
            return Err(TuyaError::InvalidPayload);
        }
        let cipher = match TuyaCipher::new(key) {
            Ok(c) => c,
            Err(_) => {
                return Err(TuyaError::EncryptionFailed);
            },
        };
        let region = &data[18..total - 4];
        let iv = &region[0..12];
        let ct = &region[12..region.len()];
        let aad = &data[4..18];
        proof {
            assert(iv@ =~= data@.subrange(18, total - 4).take(12));
            assert(ct@ =~= data@.subrange(18, total - 4).skip(12));
            assert(iv@.take(12) =~= iv@);
        }
        let plain = match cipher.decrypt(ct, false, Some(iv), Some(aad)) {
            Ok(p) => p,
            Err(_) => {
                return Err(TuyaError::DecryptionFailed);
            },
        };
        let split = split_retcode(plain.as_slice(), no_retcode);
        Ok(
            TuyaMessage {
                seqno: h.seqno,
                cmd: h.cmd,
                retcode: split.0,
                payload: split.1,
                prefix: h.prefix,
                iv: Some(vstd::slice::slice_to_vec(iv)),
            },
        )
    } else {
        Err(TuyaError::InvalidHeader)
    }
}

/// A packed `0x55AA` frame: header, payload, HMAC or CRC footer (HMAC when
/// a key is supplied), and suffix. The length field counts the footer and
/// suffix.
pub open spec fn spec_pack_55aa(
    seqno: u32,
    cmd: u32,
    payload: Seq<u8>,
    key: Option<Seq<u8>>,
) -> Seq<u8> {
    let suffix_len: int = if key is Some {
        36
    } else {
        8
    };
    let plen = (payload.len() + suffix_len) as u32;
    let body = be32(PREFIX_55AA) + be32(seqno) + be32(cmd) + be32(plen) + payload;
    let footer = match key {
        Some(k) => hmac_sha256_of(k, body),
        None => be32(crc32_of(body)),
    };
    body + footer + be32(SUFFIX_55AA)
}

/// The plaintext a `0x6699` frame seals: the optional return code followed
/// by the payload.
pub open spec fn spec_raw_6699(retcode: Option<u32>, payload: Seq<u8>) -> Seq<u8> {
    (match retcode {
        Some(rc) => be32(rc),
        None => Seq::<u8>::empty(),
    }) + payload
}

/// The 18-byte header of a `0x6699` frame sealing `rawlen` plaintext bytes.
pub open spec fn spec_6699_hdr(seqno: u32, cmd: u32, rawlen: nat) -> Seq<u8> {
    be32(PREFIX_6699) + seq![0u8, 0u8] + be32(seqno) + be32(cmd) + be32(((rawlen + 28) as u32))
}

/// A packed `0x6699` frame: 18-byte header, IV, GCM ciphertext-with-tag of
/// the optional return code followed by the payload (sealed with the header
/// bytes after the prefix as associated data), and suffix.
pub open spec fn spec_pack_6699(
    seqno: u32,
    cmd: u32,
    retcode: Option<u32>,
    payload: Seq<u8>,
    key: Seq<u8>,
    iv: Seq<u8>,
) -> Seq<u8> {
    let raw = spec_raw_6699(retcode, payload);
    let hdr = spec_6699_hdr(seqno, cmd, raw.len());
    hdr + iv + gcm_seal(key, iv.take(12), hdr.skip(4), raw) + be32(SUFFIX_6699)
}

/// Unpacking a packed `0x6699` frame gives the message back, provided the
/// GCM opening inverts the sealing of its plaintext, which the sealing
/// wrapper guarantees at every call.
proof fn lemma_pack_unpack_6699_frame(m: SpecMessage, key: Seq<u8>, ivs: Seq<u8>)
    requires
        m.prefix == PREFIX_6699,
        key.len() == 16,
        ivs.len() == 12,
        m.payload.len() + 64 < u32::MAX,
        gcm_open(
            key,
            ivs,
            spec_6699_hdr(m.seqno, m.cmd, spec_raw_6699(m.retcode, m.payload).len()).skip(4),
            gcm_seal(
                key,
                ivs,
                spec_6699_hdr(m.seqno, m.cmd, spec_raw_6699(m.retcode, m.payload).len()).skip(4),
                spec_raw_6699(m.retcode, m.payload),
            ),
        ) == Some(spec_raw_6699(m.retcode, m.payload)),
    ensures
        spec_unpack(
            spec_pack_6699(m.seqno, m.cmd, m.retcode, m.payload, key, ivs),
            Some(key),
            None,
            Some(m.retcode is None),
        ) == Ok::<SpecMessage, UnpackErr>(spec_packed_model_6699(m, ivs)),
{
    let raws = spec_raw_6699(m.retcode, m.payload);
    let hdr = spec_6699_hdr(m.seqno, m.cmd, raws.len());
    assert(ivs.take(12) =~= ivs);
    let ct = gcm_seal(key, ivs, hdr.skip(4), raws);
    let v = spec_pack_6699(m.seqno, m.cmd, m.retcode, m.payload, key, ivs);
    assert(v =~= hdr + ivs + ct + be32(SUFFIX_6699));
    let plen = ((raws.len() + 28) as u32);
    assert(plen == raws.len() + 28);
    assert(v.len() == raws.len() + 50);
    assert(v.subrange(0, 4) =~= be32(PREFIX_6699));
    assert(v.subrange(6, 10) =~= be32(m.seqno));
    assert(v.subrange(10, 14) =~= be32(m.cmd));
    assert(v.subrange(14, 18) =~= be32(plen));
    lemma_be32_roundtrip(PREFIX_6699);
    lemma_be32_roundtrip(m.seqno);
    lemma_be32_roundtrip(m.cmd);
    lemma_be32_roundtrip(plen);
    let h = TuyaHeader {
        prefix: PREFIX_6699,
        seqno: m.seqno,
        cmd: m.cmd,
        payload_len: plen,
        total_length: (plen + 22) as u32,
    };
    assert(spec_parse_header(v) == Ok::<TuyaHeader, UnpackErr>(h));
    let total = h.total_length as int;
    assert(total == v.len());
    assert(total >= 50);
    let region = v.subrange(18, total - 4);
    assert(region =~= ivs + ct);
    assert(region.take(12) =~= ivs);
    assert(region.skip(12) =~= ct);
    assert(v.subrange(4, 18) =~= hdr.skip(4));
    let split = spec_split_retcode(raws, Some(m.retcode is None));
    match m.retcode {
        Some(rc) => {
            assert(raws.take(4) =~= be32(rc));
            lemma_be32_roundtrip(rc);
            assert(raws.skip(4) =~= m.payload);
            assert(split == (Some(rc), m.payload));
        },
        None => {
            assert(raws =~= m.payload);
        },
    }
    let expect = spec_packed_model_6699(m, ivs);
    assert(spec_unpack(v, Some(key), None, Some(m.retcode is None)) matches Ok(got) && got
        =~= expect);
}

/// The message that unpacking a packed `0x55AA` frame yields: the packed
/// fields, with no return code and no IV.
pub open spec fn spec_packed_model_55aa(m: SpecMessage) -> SpecMessage {
    SpecMessage {
        seqno: m.seqno,
        cmd: m.cmd,
        retcode: None,
        payload: m.payload,
        prefix: PREFIX_55AA,
        iv: None,
    }
}

/// The message that unpacking a packed `0x6699` frame yields: the packed
/// fields, with the IV the frame carried.
pub open spec fn spec_packed_model_6699(m: SpecMessage, iv: Seq<u8>) -> SpecMessage {
    SpecMessage {
        seqno: m.seqno,
        cmd: m.cmd,
        retcode: m.retcode,
        payload: m.payload,
        prefix: PREFIX_6699,
        iv: Some(iv),
    }
}

/// Unpacking a packed `0x55AA` frame gives the message back, under either
/// footer: the round-trip law of the classic wire format.
#[verifier::spinoff_prover]
#[verifier::rlimit(60)]
pub proof fn lemma_pack_unpack_55aa(seqno: u32, cmd: u32, payload: Seq<u8>, key: Option<Seq<u8>>)
    requires
        payload.len() + 64 < u32::MAX,
    ensures
        spec_unpack(spec_pack_55aa(seqno, cmd, payload, key), key, None, Some(true)) == Ok::<
            SpecMessage,
            UnpackErr,
        >(
            SpecMessage {
                seqno,
                cmd,
                retcode: None,
                payload,
                prefix: PREFIX_55AA,
                iv: None,
            },
        ),
{
    let v = spec_pack_55aa(seqno, cmd, payload, key);
    let suffix_len: int = if key is Some {
        36
    } else {
        8
    };
    let plen = (payload.len() + suffix_len) as u32;
    assert(plen == payload.len() + suffix_len);
    let body = be32(PREFIX_55AA) + be32(seqno) + be32(cmd) + be32(plen) + payload;
    let footer = match key {
        Some(k) => hmac_sha256_of(k, body),
        None => be32(crc32_of(body)),
    };
    assert(footer.len() == suffix_len - 4);
    assert(v.len() == 16 + payload.len() + suffix_len);
    assert(v.subrange(0, 4) =~= be32(PREFIX_55AA));
    assert(v.subrange(4, 8) =~= be32(seqno));
    assert(v.subrange(8, 12) =~= be32(cmd));
    assert(v.subrange(12, 16) =~= be32(plen));
    lemma_be32_roundtrip(PREFIX_55AA);
    lemma_be32_roundtrip(seqno);
    lemma_be32_roundtrip(cmd);
    lemma_be32_roundtrip(plen);
    let h = TuyaHeader {
        prefix: PREFIX_55AA,
        seqno,
        cmd,
        payload_len: plen,
        total_length: (plen + 16) as u32,
    };
    assert(spec_parse_header(v) == Ok::<TuyaHeader, UnpackErr>(h));
    let total = h.total_length as int;
    assert(total == v.len());
    let payload_end = total - suffix_len + 8 - 8;
    assert(payload_end == 16 + payload.len());
    assert(v.subrange(16, 16 + payload.len() as int) =~= payload);
    assert(spec_split_retcode(payload, Some(true)) == (None::<u32>, payload));
    assert(v.take(16 + payload.len() as int) =~= body);
    match key {
        Some(k) => {
            assert(v.subrange(16 + payload.len() as int, 16 + payload.len() as int + 32) =~= footer);
        },
        None => {
            assert(v.subrange(16 + payload.len() as int, 16 + payload.len() as int + 4) =~= footer);
            lemma_be32_roundtrip(crc32_of(body));
        },
    }
    let expect = SpecMessage {
        seqno,
        cmd,
        retcode: None,
        payload,
        prefix: PREFIX_55AA,
        iv: None,
    };
    assert(spec_unpack(v, key, None, Some(true)) matches Ok(m) && m =~= expect);
}

/// Pack a message into a frame.
///
/// `0x55AA` frames use an HMAC-SHA256 footer when `hmac_key` is supplied
/// and a CRC32 footer otherwise; the return code is not packed. `0x6699`
/// frames require a 16-byte key, encrypt the optional return code followed
/// by the payload, and use the message's IV or a fresh random 12-byte one.
/// Unpacking the result gives the message back, as the postconditions
/// state. A message with an unknown prefix packs to nothing.
pub fn pack_message(msg: &TuyaMessage, hmac_key: Option<&[u8]>) -> (r: Result<Vec<u8>, TuyaError>)
    requires
        msg.payload@.len() + 64 < u32::MAX,
        msg@.iv matches Some(v) ==> v.len() == 12,
    ensures
        msg.prefix == PREFIX_55AA ==> (r matches Ok(v) && v@ == spec_pack_55aa(
            msg.seqno,
            msg.cmd,
            msg.payload@,
            okey(hmac_key),
        ) && spec_unpack(v@, okey(hmac_key), None, Some(true)) == Ok::<SpecMessage, UnpackErr>(
            spec_packed_model_55aa(msg@),
        )),
        msg.prefix == PREFIX_6699 ==> (match okey(hmac_key) {
            None => r matches Err(e) && e is EncryptionFailed,
            Some(k) => {
                if k.len() == 16 {
                    r matches Ok(v) && (exists|ivs: Seq<u8>|
                        #![auto]
                        {
                            &&& ivs.len() == 12
                            &&& (msg@.iv matches Some(g) ==> ivs == g)
                            &&& v@ == spec_pack_6699(
                                msg.seqno,
                                msg.cmd,
                                msg.retcode,
                                msg.payload@,
                                k,
                                ivs,
                            )
                            &&& spec_unpack(v@, Some(k), None, Some(msg.retcode is None)) == Ok::<
                                SpecMessage,
                                UnpackErr,
                            >(spec_packed_model_6699(msg@, ivs))
                        })
                } else {
                    r matches Err(e) && e is EncryptionFailed
                }
            },
        }),
        (msg.prefix != PREFIX_55AA && msg.prefix != PREFIX_6699) ==> (r matches Ok(v) && v@
            == Seq::<u8>::empty()),
{
    if msg.prefix == PREFIX_55AA {
        let suffix_len: u32 = if hmac_key.is_some() {
            36
        } else {
            8
        };
        let payload_len: u32 = (msg.payload.len() as u32) + suffix_len;
        let mut data: Vec<u8> = Vec::new();
        push_be32(&mut data, PREFIX_55AA);
        push_be32(&mut data, msg.seqno);
        push_be32(&mut data, msg.cmd);
        push_be32(&mut data, payload_len);
        crate::encoding::append_bytes(&mut data, msg.payload.as_slice());
        match hmac_key {
            Some(k) => {
                let mac = hmac_sha256(k, data.as_slice());
                crate::encoding::append_bytes(&mut data, mac.as_slice());
            },
            None => {
                let c = crc32(data.as_slice());
                push_be32(&mut data, c);
            },
        }
        push_be32(&mut data, SUFFIX_55AA);
        proof {
            assert(data@ =~= spec_pack_55aa(msg.seqno, msg.cmd, msg.payload@, okey(hmac_key)));
            lemma_pack_unpack_55aa(msg.seqno, msg.cmd, msg.payload@, okey(hmac_key));
            assert(spec_packed_model_55aa(msg@) =~= SpecMessage {
                seqno: msg.seqno,
                cmd: msg.cmd,
                retcode: None,
                payload: msg.payload@,
                prefix: PREFIX_55AA,
                iv: None,
            });
        }
        Ok(data)
    } else if msg.prefix == PREFIX_6699 {
        let key = match hmac_key {
            Some(k) => k,
            None => {
                return Err(TuyaError::EncryptionFailed);
            },
        };
        let cipher = match TuyaCipher::new(key) {
            Ok(c) => c,
            Err(_) => {
                return Err(TuyaError::EncryptionFailed);
            },
        };
        let mut raw: Vec<u8> = Vec::new();
        if let Some(rc) = msg.retcode {
            push_be32(&mut raw, rc);
        }
        crate::encoding::append_bytes(&mut raw, msg.payload.as_slice());
        let total_payload_len: u32 = (raw.len() as u32) + 28;
        let mut header_bytes: Vec<u8> = Vec::new();
        push_be32(&mut header_bytes, PREFIX_6699);
        header_bytes.push(0);
        header_bytes.push(0);
        push_be32(&mut header_bytes, msg.seqno);
        push_be32(&mut header_bytes, msg.cmd);
        push_be32(&mut header_bytes, total_payload_len);
        let iv_vec: Vec<u8> = match msg.iv {
            Some(ref iv) => vstd::slice::slice_to_vec(iv.as_slice()),
            None => crate::crypto::random_bytes(12),
        };
        let aad = &header_bytes.as_slice()[4..18];
        let iv_arg = iv_vec.as_slice();
        let encrypted = match cipher.encrypt(raw.as_slice(), false, Some(iv_arg), Some(aad), false)
        {
            Ok(v) => v,
            Err(_) => {
                return Err(TuyaError::EncryptionFailed);
            },
        };
        let mut data: Vec<u8> = Vec::new();
        crate::encoding::append_bytes(&mut data, header_bytes.as_slice());
        crate::encoding::append_bytes(&mut data, encrypted.as_slice());
        push_be32(&mut data, SUFFIX_6699);
        proof {
            let k = key@;
            let ivs = iv_vec@;
            let raws = raw@;
            let hdr = header_bytes@;
            assert(raws =~= spec_raw_6699(msg.retcode, msg.payload@));
            assert(hdr =~= spec_6699_hdr(msg.seqno, msg.cmd, raws.len()));
            assert(aad@ =~= hdr.skip(4));
            assert(ivs.take(12) =~= ivs);
            assert(encrypted@ =~= ivs + gcm_seal(k, ivs, hdr.skip(4), raws));
            assert(data@ =~= spec_pack_6699(msg.seqno, msg.cmd, msg.retcode, msg.payload@, k, ivs));
            let ct = encrypted@.skip(iv_arg@.len() as int);
            assert(ct =~= gcm_seal(k, ivs, hdr.skip(4), raws));
            assert(cipher.spec_decrypt(ct, false, Some(iv_arg), Some(aad)) == Some(raws));
            assert(gcm_open(k, ivs, hdr.skip(4), gcm_seal(k, ivs, hdr.skip(4), raws)) == Some(
                raws,
            ));
            lemma_pack_unpack_6699_frame(msg@, k, ivs);
        }
        Ok(data)
    } else {
        Ok(Vec::new())
    }
}

/// The framing law of the classic format: a packed `0x55AA` frame is 16
/// bytes longer than its length field says, and ends in the `0x0000AA55`
/// suffix.
pub proof fn lemma_55aa_framing(seqno: u32, cmd: u32, payload: Seq<u8>, key: Option<Seq<u8>>)
    requires
        payload.len() + 64 < u32::MAX,
    ensures
        ({
            let v = spec_pack_55aa(seqno, cmd, payload, key);
            &&& v.len() == 16 + u32_from_be(v.subrange(12, 16))
            &&& v.subrange(v.len() - 4, v.len() as int) == be32(SUFFIX_55AA)
        }),
{
    let v = spec_pack_55aa(seqno, cmd, payload, key);
    let suffix_len: int = if key is Some {
        36
    } else {
        8
    };
    let plen = (payload.len() + suffix_len) as u32;
    assert(plen == payload.len() + suffix_len);
    assert(v.len() == 16 + payload.len() + suffix_len);
    assert(v.subrange(12, 16) =~= be32(plen));
    lemma_be32_roundtrip(plen);
    assert(v.subrange(v.len() - 4, v.len() as int) =~= be32(SUFFIX_55AA));
}

/// The framing law of the GCM format: a packed `0x6699` frame is 22 bytes
/// longer than its length field says, the length field covers exactly
/// IV, ciphertext and tag, and the frame ends in the `0x00009966` suffix.
pub proof fn lemma_6699_framing(
    seqno: u32,
    cmd: u32,
    retcode: Option<u32>,
    payload: Seq<u8>,
    key: Seq<u8>,
    iv: Seq<u8>,
)
    requires
        payload.len() + 64 < u32::MAX,
        iv.len() == 12,
    ensures
        ({
            let v = spec_pack_6699(seqno, cmd, retcode, payload, key, iv);
            &&& v.len() == 22 + u32_from_be(v.subrange(14, 18))
            &&& u32_from_be(v.subrange(14, 18)) == 12 + spec_raw_6699(retcode, payload).len() + 16
            &&& v.subrange(v.len() - 4, v.len() as int) == be32(SUFFIX_6699)
        }),
{
    let v = spec_pack_6699(seqno, cmd, retcode, payload, key, iv);
    let raws = spec_raw_6699(retcode, payload);
    let plen = ((raws.len() + 28) as u32);
    assert(plen == raws.len() + 28);
    assert(v.len() == raws.len() + 50);
    assert(v.subrange(14, 18) =~= be32(plen));
    lemma_be32_roundtrip(plen);
    assert(v.subrange(v.len() - 4, v.len() as int) =~= be32(SUFFIX_6699));
}

/// The integrity law of the classic format: a `0x55AA` frame whose footer
/// does not equal the checksum computed over its bytes is rejected as
/// `HmacMismatch` (with a key) or `CrcMismatch` (without one), and a frame
/// that unpacks had a matching footer. Nothing is silently accepted.
pub proof fn lemma_footer_checked(
    data: Seq<u8>,
    key: Option<Seq<u8>>,
    h: TuyaHeader,
    no_retcode: Option<bool>,
)
    requires
        spec_parse_header(data) == Ok::<TuyaHeader, UnpackErr>(h),
        h.prefix == PREFIX_55AA,
        data.len() >= h.total_length,
        h.total_length >= (if key is Some {
            52int
        } else {
            24
        }),
    ensures
        ({
            let total = h.total_length as int;
            let end_len: int = if key is Some {
                36
            } else {
                8
            };
            let payload_end = total - end_len;
            let body = data.take(payload_end);
            match key {
                Some(k) => {
                    if data.subrange(payload_end, payload_end + 32) == hmac_sha256_of(k, body) {
                        spec_unpack(data, key, None, no_retcode) is Ok
                    } else {
                        spec_unpack(data, key, None, no_retcode) == Err::<SpecMessage, UnpackErr>(
                            UnpackErr::HmacMismatch,
                        )
                    }
                },
                None => {
                    if u32_from_be(data.subrange(payload_end, payload_end + 4)) == crc32_of(body) {
                        spec_unpack(data, key, None, no_retcode) is Ok
                    } else {
                        spec_unpack(data, key, None, no_retcode) == Err::<SpecMessage, UnpackErr>(
                            UnpackErr::CrcMismatch,
                        )
                    }
                },
            }
        }),
{
}

} // verus!
