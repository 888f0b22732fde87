//! Per-device session logic: connection lifecycle state, sequence numbers,
//! reconnection backoff, outbound payload construction, version-dependent
//! packing, inbound payload cleaning with device22 detection, session-key
//! negotiation, and synthetic error messages.
//!
//! Everything here is a function from state and plain values to state and
//! plain values; the task that owns the socket calls these and performs the
//! I/O between them.
use vstd::prelude::*;

use crate::crypto::TuyaCipher;
use crate::error::TuyaError;
use crate::protocol::{CommandType, TuyaHeader, TuyaMessage, Version, PREFIX_55AA, PREFIX_6699};

verus! {

/// The compatibility mode of a device: `Device22` firmwares require
/// `ControlNew` in place of `DpQuery` and may return payloads that are not
/// block-aligned.
#[derive(Debug, Clone, Copy, PartialEq, Eq, Structural)]
pub enum DevType {
    Default,
    Device22,
}

/// Powers of two.
pub open spec fn pow2(e: nat) -> nat
    decreases e,
{
    if e == 0 {
        1
    } else {
        2 * pow2((e - 1) as nat)
    }
}

/// The backoff before the next connection attempt after `count` earlier
/// failures: `min(2^min(count, 6) * 30, 600)` seconds.
pub open spec fn spec_backoff(count: u32) -> u64 {
    let e: nat = if count < 6 {
        count as nat
    } else {
        6
    };
    let d = pow2(e) * 30;
    if d > 600 {
        600u64
    } else {
        d as u64
    }
}

/// The mutable per-device session state, together with the device identity
/// it was configured with.
pub struct DeviceCore {
    /// Device id, as the bytes of its ASCII form.
    pub id: Vec<u8>,
    /// The provisioned local key.
    pub local_key: Vec<u8>,
    /// Protocol version.
    pub version: Version,
    /// Compatibility mode.
    pub dev_type: DevType,
    /// A TCP connection is currently established.
    pub connected: bool,
    /// `stop` was called; the session no longer accepts commands.
    pub stopped: bool,
    /// Reconnect after failures instead of terminating.
    pub persist: bool,
    /// The negotiated session key, present after a 3.4+ handshake.
    pub session_key: Option<Vec<u8>>,
    /// Failed connection attempts since the last successful inbound packet.
    pub failure_count: u32,
    /// The next resolution must scan instead of using the cache.
    pub force_discovery: bool,
    /// The sequence number the next outbound message will carry.
    pub seqno: u32,
}

/// The device22 rule at construction: version 3.2 starts in device22 mode.
pub open spec fn spec_dev_type_for(version: Version) -> DevType {
    if version == Version::V3_2 {
        DevType::Device22
    } else {
        DevType::Default
    }
}

impl DeviceCore {
    /// A fresh session state for a device.
    pub fn new(id: Vec<u8>, local_key: Vec<u8>, version: Version) -> (r: DeviceCore)
        ensures
            r.id@ == id@,
            r.local_key@ == local_key@,
            r.version == version,
            r.dev_type == spec_dev_type_for(version),
            !r.connected,
            !r.stopped,
            r.persist,
            r.session_key is None,
            r.failure_count == 0,
            !r.force_discovery,
            r.seqno == 1,
    {
        let dev_type = if matches!(version, Version::V3_2) {
            DevType::Device22
        } else {
            DevType::Default
        };
        DeviceCore {
            id,
            local_key,
            version,
            dev_type,
            connected: false,
            stopped: false,
            persist: true,
            session_key: None,
            failure_count: 0,
            force_discovery: false,
            seqno: 1,
        }
    }

    /// Change the protocol version; version 3.2 switches to device22 mode.
    pub fn set_version(&mut self, version: Version)
        ensures
            *final(self) == (DeviceCore {
                version,
                dev_type: spec_dev_type_for(version),
                ..*old(self)
            }),
    {
        self.version = version;
        self.dev_type = if matches!(version, Version::V3_2) {
            DevType::Device22
        } else {
            DevType::Default
        };
    }

    /// Change the compatibility mode.
    pub fn set_dev_type(&mut self, dev_type: DevType)
        ensures
            *final(self) == (DeviceCore { dev_type, ..*old(self) }),
    {
        self.dev_type = dev_type;
    }

    /// Choose whether the session reconnects after failures.
    pub fn set_persist(&mut self, persist: bool)
        ensures
            *final(self) == (DeviceCore { persist, ..*old(self) }),
    {
        self.persist = persist;
    }

    /// Begin a connection attempt: the sequence number restarts at 1.
    pub fn start_attempt(&mut self)
        ensures
            *final(self) == (DeviceCore { seqno: 1u32, ..*old(self) }),
    {
        self.seqno = 1;
    }

    /// Record that the connection is established.
    pub fn record_connected(&mut self)
        ensures
            *final(self) == (DeviceCore { connected: true, ..*old(self) }),
    {
        self.connected = true;
    }

    /// Record that the connection is gone.
    pub fn record_disconnected(&mut self)
        ensures
            *final(self) == (DeviceCore { connected: false, ..*old(self) }),
    {
        self.connected = false;
    }

    /// Stop the session for good: no further commands are accepted.
    pub fn stop(&mut self)
        ensures
            *final(self) == (DeviceCore { stopped: true, connected: false, ..*old(self) }),
    {
        self.stopped = true;
        self.connected = false;
    }

    /// Record a failed connection attempt: the failure count grows by one
    /// (until it saturates), and in automatic address mode a key/version
    /// error or unreachability forces the next resolution to scan afresh.
    pub fn record_failure(&mut self, err: &TuyaError, auto_address: bool)
        ensures
            final(self).failure_count == (if old(self).failure_count < u32::MAX {
                old(self).failure_count + 1
            } else {
                old(self).failure_count as int
            }),
            final(self).failure_count >= old(self).failure_count,
            final(self).force_discovery == (old(self).force_discovery || (auto_address && (
            err is KeyOrVersionError || err is Offline))),
            *final(self) == (DeviceCore {
                failure_count: final(self).failure_count,
                force_discovery: final(self).force_discovery,
                ..*old(self)
            }),
    {
        if self.failure_count < u32::MAX {
            self.failure_count = self.failure_count + 1;
        }
        if auto_address && matches!(err, TuyaError::KeyOrVersionError | TuyaError::Offline) {
            self.force_discovery = true;
        }
    }

    /// Record a successfully decoded inbound packet: the failure count
    /// resets to zero.
    pub fn record_inbound_success(&mut self)
        ensures
            *final(self) == (DeviceCore { failure_count: 0u32, ..*old(self) }),
    {
        self.failure_count = 0;
    }

    /// Record that discovery resolved the device: the forced-scan flag
    /// clears.
    pub fn record_resolved(&mut self)
        ensures
            *final(self) == (DeviceCore { force_discovery: false, ..*old(self) }),
    {
        self.force_discovery = false;
    }

    /// Whether a command is accepted in the current state.
    pub open spec fn spec_accept_command(&self) -> Result<(), TuyaError> {
        if self.stopped {
            Err(TuyaError::Offline)
        } else {
            Ok(())
        }
    }

    /// Accept a command, or reject it with `Offline` once stopped.
    pub fn accept_command(&self) -> (r: Result<(), TuyaError>)
        ensures
            r == self.spec_accept_command(),
    {
        if self.stopped {
            Err(TuyaError::Offline)
        } else {
            Ok(())
        }
    }

    /// The key the session's cipher operations use: the negotiated session
    /// key when one is present, the local key otherwise.
    pub open spec fn spec_active_key(&self) -> Seq<u8> {
        match self.session_key {
            Some(ref k) => k@,
            None => self.local_key@,
        }
    }

    /// The active cipher key.
    pub fn get_cipher_key(&self) -> (r: Vec<u8>)
        ensures
            r@ == self.spec_active_key(),
    {
        match self.session_key {
            Some(ref k) => vstd::slice::slice_to_vec(k.as_slice()),
            None => vstd::slice::slice_to_vec(self.local_key.as_slice()),
        }
    }

    /// The backoff before the next connection attempt, after `failure_count`
    /// earlier failures.
    pub fn get_backoff_duration(&self, failure_count: u32) -> (r: u64)
        ensures
            r == spec_backoff(failure_count),
    {
        let e: u32 = if failure_count < 6 {
            failure_count
        } else {
            6
        };
        proof {
            assert(pow2(0) == 1);
            assert(pow2(1) == 2);
            assert(pow2(2) == 4);
            assert(pow2(3) == 8);
            assert(pow2(4) == 16);
            assert(pow2(5) == 32);
            assert(pow2(6) == 64);
        }
        let base: u64 = match e {
            0 => 1,
            1 => 2,
            2 => 4,
            3 => 8,
            4 => 16,
            5 => 32,
            _ => 64,
        };
        let secs = base * 30;
        if secs > 600 {
            600
        } else {
            secs
        }
    }

    /// Allocate the next sequence number and build an outbound message
    /// around it: the message carries the current number, and the state
    /// moves to the next one, so numbers within a connection strictly
    /// increase.
    pub fn build_message(&mut self, cmd: u32, payload: Vec<u8>) -> (r: TuyaMessage)
        requires
            old(self).seqno < u32::MAX,
        ensures
            r@.seqno == old(self).seqno,
            r@.cmd == cmd,
            r@.retcode is None,
            r@.payload == payload@,
            r@.prefix == (if old(self).version.spec_tenths() >= 35 {
                PREFIX_6699
            } else {
                PREFIX_55AA
            }),
            r@.iv is None,
            *final(self) == (DeviceCore { seqno: (old(self).seqno + 1) as u32, ..*old(self) }),
    {
        let current = self.seqno;
        self.seqno = self.seqno + 1;
        let prefix = if self.version.tenths() >= 35 {
            PREFIX_6699
        } else {
            PREFIX_55AA
        };
        TuyaMessage { seqno: current, cmd, retcode: None, payload, prefix, iv: None }
    }
}

/// The sequence numbers of two messages built one after the other within a
/// connection strictly increase.
pub proof fn lemma_seqno_strictly_increasing(
    s0: DeviceCore,
    s1: DeviceCore,
    s2: DeviceCore,
    m1: TuyaMessage,
    m2: TuyaMessage,
)
    requires
        m1@.seqno == s0.seqno,
        s1.seqno == s0.seqno + 1,
        m2@.seqno == s1.seqno,
        s2.seqno == s1.seqno + 1,
    ensures
        m1@.seqno < m2@.seqno,
{
}

/// The failure count never decreases across failed attempts, and resets to
/// zero exactly on a successful inbound packet.
pub proof fn lemma_failure_count_monotonic(s0: DeviceCore, s1: DeviceCore, s2: DeviceCore)
    requires
        s1.failure_count == (if s0.failure_count < u32::MAX {
            s0.failure_count + 1
        } else {
            s0.failure_count as int
        }),
        s2.failure_count == (if s1.failure_count < u32::MAX {
            s1.failure_count + 1
        } else {
            s1.failure_count as int
        }),
    ensures
        s0.failure_count <= s1.failure_count <= s2.failure_count,
{
}

/// Once stopped, every command is rejected with `Offline`.
pub proof fn lemma_stopped_rejects_commands(d: DeviceCore)
    requires
        d.stopped,
    ensures
        d.spec_accept_command() matches Err(e) && e is Offline,
{
}

/// The backoff is `min(2^min(n - 1, 6) * 30, 600)` seconds before attempt
/// `n`, counted from the failure count the attempt sees; it never exceeds
/// 600 seconds and never falls below 30.
pub proof fn lemma_backoff_bounds(count: u32)
    ensures
        spec_backoff(count) == (if pow2((if count < 6 {
            count as nat
        } else {
            6
        })) * 30 > 600 {
            600int
        } else {
            (pow2((if count < 6 {
                count as nat
            } else {
                6
            })) * 30) as int
        }),
        30 <= spec_backoff(count) <= 600,
{
    let e: nat = if count < 6 {
        count as nat
    } else {
        6
    };
    assert(pow2(0) == 1);
    assert(pow2(1) == 2);
    assert(pow2(2) == 4);
    assert(pow2(3) == 8);
    assert(pow2(4) == 16);
    assert(pow2(5) == 32);
    assert(pow2(6) == 64);
    assert(pow2(e) >= 1) by {
        if e == 0 {
        } else if e == 1 {
        } else if e == 2 {
        } else if e == 3 {
        } else if e == 4 {
        } else if e == 5 {
        } else {
            assert(e == 6);
        }
    }
}

/// The commands that never get the 15-byte version header prepended.
pub open spec fn spec_no_header_cmd(cmd: u32) -> bool {
    cmd == CommandType::DpQuery.spec_value() || cmd == CommandType::DpQueryNew.spec_value() || cmd
        == CommandType::UpdateDps.spec_value() || cmd == CommandType::HeartBeat.spec_value() || cmd
        == CommandType::SessKeyNegStart.spec_value() || cmd
        == CommandType::SessKeyNegResp.spec_value() || cmd
        == CommandType::SessKeyNegFinish.spec_value() || cmd
        == CommandType::LanExtStream.spec_value()
}

/// Whether a command goes out without the version header.
pub fn no_header_cmd(cmd: u32) -> (r: bool)
    ensures
        r == spec_no_header_cmd(cmd),
{
    cmd == 0x0a || cmd == 0x10 || cmd == 0x12 || cmd == 0x09 || cmd == 0x03 || cmd == 0x04 || cmd
        == 0x05 || cmd == 0x40
}

/// Twelve zero bytes, the filler of the 15-byte version header.
pub open spec fn zeros12() -> Seq<u8> {
    Seq::new(12, |i: int| 0u8)
}

/// The 15-byte version header: the tag followed by twelve zero bytes.
pub open spec fn spec_version_header(version: Version) -> Seq<u8> {
    version.spec_tag_bytes() + zeros12()
}

impl DeviceCore {
    /// Prepend the 15-byte version header to a payload.
    pub fn add_protocol_header(&self, payload: &[u8]) -> (r: Vec<u8>)
        requires
            payload@.len() + 15 <= usize::MAX,
        ensures
            r@ == spec_version_header(self.version) + payload@,
    {
        let mut out = self.version.tag_bytes();
        let mut i: usize = 0;
        while i < 12
            invariant
                i <= 12,
                out@ == self.version.spec_tag_bytes() + Seq::new(i as nat, |j: int| 0u8),
            decreases 12 - i,
        {
            out.push(0);
            i = i + 1;
            proof {
                assert(out@ =~= self.version.spec_tag_bytes() + Seq::new(i as nat, |j: int| 0u8));
            }
        }
        crate::encoding::append_bytes(&mut out, payload);
        proof {
            assert(out@ =~= spec_version_header(self.version) + payload@);
        }
        out
    }

    /// Whether an inbound payload still starts with the version header:
    /// either the three tag bytes lead it, or (in device22 mode) its length
    /// is not a multiple of 16.
    pub open spec fn spec_has_version_header(&self, payload: Seq<u8>) -> bool {
        payload.len() >= 15 && (payload.take(3) == self.version.spec_tag_bytes() || (self.dev_type
            == DevType::Device22 && payload.len() % 16 != 0))
    }

    /// Whether an inbound payload still starts with the version header.
    pub fn has_version_header(&self, payload: &[u8]) -> (r: bool)
        ensures
            r == self.spec_has_version_header(payload@),
    {
        if payload.len() < 15 {
            return false;
        }
        let tag = self.version.tag_bytes();
        if crate::encoding::bytes_eq(&payload[0..3], tag.as_slice()) {
            proof {
                assert(payload@.subrange(0, 3) =~= payload@.take(3));
            }
            true
        } else {
            proof {
                assert(payload@.subrange(0, 3) =~= payload@.take(3));
            }
            matches!(self.dev_type, DevType::Device22) && payload.len() % 16 != 0
        }
    }

    /// Strip the 15-byte version header; a shorter payload passes through.
    pub fn remove_version_header(&self, payload: Vec<u8>) -> (r: Vec<u8>)
        ensures
            r@ == (if payload@.len() >= 15 {
                payload@.skip(15)
            } else {
                payload@
            }),
    {
        if payload.len() >= 15 {
            let out = vstd::slice::slice_to_vec(&payload.as_slice()[15..payload.len()]);
            proof {
                assert(out@ =~= payload@.skip(15));
            }
            out
        } else {
            payload
        }
    }

    /// What the wire sees of an outbound payload: the version header where
    /// the command takes one, and the encryption the version prescribes.
    /// `None` where the active key cannot drive the cipher (not 16 bytes).
    pub open spec fn spec_outbound_payload(&self, cmd: u32, payload: Seq<u8>) -> Option<Seq<u8>> {
        let v = self.version.spec_tenths();
        let key = self.spec_active_key();
        let with_hdr = !spec_no_header_cmd(cmd);
        if key.len() != 16 {
            None
        } else if v >= 34 {
            let p1 = if with_hdr {
                spec_version_header(self.version) + payload
            } else {
                payload
            };
            if v >= 35 {
                Some(p1)
            } else {
                Some(crate::crypto::spec_ecb_encrypt_padded(key, p1))
            }
        } else if v >= 32 {
            let pe = crate::crypto::spec_ecb_encrypt_padded(key, payload);
            if with_hdr {
                Some(spec_version_header(self.version) + pe)
            } else {
                Some(pe)
            }
        } else {
            if self.dev_type == DevType::Device22 || cmd == CommandType::Control.spec_value() {
                Some(crate::crypto::spec_ecb_encrypt_padded(key, payload))
            } else {
                Some(payload)
            }
        }
    }

    /// Pack an outbound message the way the session's version prescribes:
    /// version header and ECB for 3.2 through 3.4, the GCM frame for 3.5,
    /// plain (except `Control` and device22 traffic) for 3.1; `0x55AA`
    /// frames carry an HMAC footer from 3.4 up and a CRC footer below.
    /// Unpacking the result with the active key gives the prepared message
    /// back.
    pub fn pack_msg(&self, msg: TuyaMessage) -> (r: Result<Vec<u8>, TuyaError>)
        requires
            msg@.payload.len() + 128 < u32::MAX,
            msg@.retcode is None,
            msg@.iv is None,
        ensures
            match self.spec_outbound_payload(msg@.cmd, msg@.payload) {
                None => r matches Err(e) && e is EncryptionFailed,
                Some(pp) => r matches Ok(v) && (if self.version.spec_tenths() >= 35 {
                    exists|ivs: Seq<u8>|
                        #![auto]
                        {
                            &&& ivs.len() == 12
                            &&& v@ == crate::protocol::spec_pack_6699(
                                msg@.seqno,
                                msg@.cmd,
                                None,
                                pp,
                                self.spec_active_key(),
                                ivs,
                            )
                            &&& crate::protocol::spec_unpack(
                                v@,
                                Some(self.spec_active_key()),
                                None,
                                Some(true),
                            ) == Ok::<crate::protocol::SpecMessage, crate::protocol::UnpackErr>(
                                crate::protocol::SpecMessage {
                                    seqno: msg@.seqno,
                                    cmd: msg@.cmd,
                                    retcode: None,
                                    payload: pp,
                                    prefix: PREFIX_6699,
                                    iv: Some(ivs),
                                },
                            )
                        }
                } else {
                    {
                        let hk = if self.version.spec_tenths() >= 34 {
                            Some(self.spec_active_key())
                        } else {
                            None
                        };
                        &&& v@ == crate::protocol::spec_pack_55aa(msg@.seqno, msg@.cmd, pp, hk)
                        &&& crate::protocol::spec_unpack(v@, hk, None, Some(true)) == Ok::<
                            crate::protocol::SpecMessage,
                            crate::protocol::UnpackErr,
                        >(
                            crate::protocol::SpecMessage {
                                seqno: msg@.seqno,
                                cmd: msg@.cmd,
                                retcode: None,
                                payload: pp,
                                prefix: PREFIX_55AA,
                                iv: None,
                            },
                        )
                    }
                }),
            },
    {
        let v = self.version.tenths();
        let key = self.get_cipher_key();
        if key.len() != 16 {
            return Err(TuyaError::EncryptionFailed);
        }
        let cipher = match TuyaCipher::new(key.as_slice()) {
            Ok(c) => c,
            Err(_) => {
                return Err(TuyaError::EncryptionFailed);
            },
        };
        let with_hdr = !no_header_cmd(msg.cmd);
        let ghost orig_len = msg.payload@.len();
        proof {
            self.version.lemma_tag_len();
        }
        let mut payload = msg.payload;
        let mut prefix = msg.prefix;
        if v >= 34 {
            if with_hdr {
                payload = self.add_protocol_header(payload.as_slice());
            }
            assert(payload@.len() <= orig_len + 15);
            if v >= 35 {
                prefix = PREFIX_6699;
            } else {
                proof {
                    crate::crypto::lemma_ecb_enc_len(
                        key@,
                        crate::crypto::pkcs7_pad(payload@),
                    );
                }
                payload = match cipher.encrypt(payload.as_slice(), false, None, None, true) {
                    Ok(p) => p,
                    Err(_) => {
                        return Err(TuyaError::EncryptionFailed);
                    },
                };
                assert(payload@.len() <= orig_len + 47);
            }
        } else if v >= 32 {
            proof {
                crate::crypto::lemma_ecb_enc_len(key@, crate::crypto::pkcs7_pad(payload@));
            }
            payload = match cipher.encrypt(payload.as_slice(), false, None, None, true) {
                Ok(p) => p,
                Err(_) => {
                    return Err(TuyaError::EncryptionFailed);
                },
            };
            if with_hdr {
                payload = self.add_protocol_header(payload.as_slice());
            }
            assert(payload@.len() <= orig_len + 47);
        } else {
            if matches!(self.dev_type, DevType::Device22) || msg.cmd == 0x07 {
                proof {
                    crate::crypto::lemma_ecb_enc_len(
                        key@,
                        crate::crypto::pkcs7_pad(payload@),
                    );
                }
                payload = match cipher.encrypt(payload.as_slice(), false, None, None, true) {
                    Ok(p) => p,
                    Err(_) => {
                        return Err(TuyaError::EncryptionFailed);
                    },
                };
                assert(payload@.len() <= orig_len + 16);
            } else {
                prefix = PREFIX_55AA;
            }
        }
        if v < 35 {
            prefix = PREFIX_55AA;
        }
        let out_msg = TuyaMessage {
            seqno: msg.seqno,
            cmd: msg.cmd,
            retcode: None,
            payload,
            prefix,
            iv: None,
        };
        let hmac_key: Option<&[u8]> = if v >= 34 {
            Some(key.as_slice())
        } else {
            None
        };
        crate::protocol::pack_message(&out_msg, hmac_key)
    }
}

/// The bytes a caller handed over, if any.
pub open spec fn obytes(o: Option<&[u8]>) -> Option<Seq<u8>> {
    match o {
        Some(x) => Some(x@),
        None => None,
    }
}

/// Shorthand for the bytes of an ASCII literal.
pub open spec fn ab(s: Seq<char>) -> Seq<u8> {
    crate::encoding::ascii_bytes(s)
}

/// The inner object of a nested payload: the sub-device fields, then the
/// data — spliced in for the extended-stream command, under a `dps` key
/// otherwise.
pub open spec fn spec_nested_data_obj(c: u32, data: Option<Seq<u8>>, cid: Option<Seq<u8>>) -> Seq<
    u8,
> {
    let cid_part = match cid {
        Some(ci) => ab("\"cid\":\""@) + ci + ab("\",\"ctype\":0"@),
        None => Seq::<u8>::empty(),
    };
    let data_part = match data {
        Some(d) => {
            if c == CommandType::LanExtStream.spec_value() {
                if d.len() >= 2 && d[0] == 123 && d[d.len() - 1] == 125 {
                    let inner = d.subrange(1, d.len() - 1);
                    if inner.len() == 0 {
                        Seq::<u8>::empty()
                    } else if cid is Some {
                        ab(","@) + inner
                    } else {
                        inner
                    }
                } else {
                    Seq::<u8>::empty()
                }
            } else {
                (if cid is Some {
                    ab(","@)
                } else {
                    Seq::<u8>::empty()
                }) + ab("\"dps\":"@) + d
            }
        },
        None => Seq::<u8>::empty(),
    };
    cid_part + data_part
}

/// The nested payload form, used for `ControlNew` and `LanExtStream` at
/// versions 3.4 and up.
pub open spec fn spec_nested_payload(
    c: u32,
    data: Option<Seq<u8>>,
    cid: Option<Seq<u8>>,
    req: Option<Seq<u8>>,
    t: u64,
) -> Seq<u8> {
    ab("{"@) + (match cid {
        Some(ci) => ab("\"cid\":\""@) + ci + ab("\","@),
        None => Seq::<u8>::empty(),
    }) + ab("\"protocol\":5,\"t\":"@) + crate::encoding::dec_digits(t as nat) + ab(
        ",\"data\":{"@,
    ) + spec_nested_data_obj(c, data, cid) + ab("}"@) + (match req {
        Some(rt) => ab(",\"reqType\":\""@) + rt + ab("\""@),
        None => Seq::<u8>::empty(),
    }) + ab("}"@)
}

/// The flat payload form, used everywhere else.
pub open spec fn spec_flat_payload(
    id: Seq<u8>,
    data: Option<Seq<u8>>,
    cid: Option<Seq<u8>>,
    req: Option<Seq<u8>>,
    t: u64,
) -> Seq<u8> {
    ab("{"@) + (match cid {
        Some(ci) => ab("\"cid\":\""@) + ci + ab("\","@),
        None => Seq::<u8>::empty(),
    }) + ab("\"gwId\":\""@) + id + ab("\",\"devId\":\""@) + (match cid {
        Some(ci) => ci,
        None => id,
    }) + ab("\",\"uid\":\""@) + id + ab("\",\"t\":\""@) + crate::encoding::dec_digits(
        t as nat,
    ) + ab("\""@) + (match data {
        Some(d) => ab(",\"dps\":"@) + d,
        None => Seq::<u8>::empty(),
    }) + (match req {
        Some(rt) => ab(",\"reqType\":\""@) + rt + ab("\""@),
        None => Seq::<u8>::empty(),
    }) + ab("}"@)
}

impl DeviceCore {
    /// The command actually sent: `Control` and `DpQuery` upgrade to their
    /// `New` forms at versions 3.4 and up, and device22 firmwares answer
    /// `ControlNew` in place of `DpQuery`.
    pub open spec fn spec_upgraded_cmd(&self, command: CommandType) -> u32 {
        let c0 = command.spec_value();
        let c1 = if self.version.spec_tenths() >= 34 {
            if command == CommandType::Control {
                CommandType::ControlNew.spec_value()
            } else if command == CommandType::DpQuery {
                CommandType::DpQueryNew.spec_value()
            } else {
                c0
            }
        } else {
            c0
        };
        if self.dev_type == DevType::Device22 && c1 == CommandType::DpQuery.spec_value() {
            CommandType::ControlNew.spec_value()
        } else {
            c1
        }
    }

    /// The data actually sent: device22 `ControlNew` without data defaults
    /// to `{"1":null}`.
    pub open spec fn spec_effective_data(&self, c: u32, data: Option<Seq<u8>>) -> Option<Seq<u8>> {
        if self.dev_type == DevType::Device22 && c == CommandType::ControlNew.spec_value()
            && data is None {
            Some(ab("{\"1\":null}"@))
        } else {
            data
        }
    }

    /// Whether the nested payload form is used for a command.
    pub open spec fn spec_use_nested(&self, c: u32) -> bool {
        self.version.spec_tenths() >= 34 && (c == CommandType::ControlNew.spec_value() || c
            == CommandType::LanExtStream.spec_value())
    }

    /// The command byte and payload text of a request.
    pub open spec fn spec_generate_payload(
        &self,
        command: CommandType,
        data: Option<Seq<u8>>,
        cid: Option<Seq<u8>>,
        req: Option<Seq<u8>>,
        t: u64,
    ) -> (u32, Seq<u8>) {
        let c = self.spec_upgraded_cmd(command);
        let d = self.spec_effective_data(c, data);
        if self.spec_use_nested(c) {
            (c, spec_nested_payload(c, d, cid, req, t))
        } else {
            (c, spec_flat_payload(self.id@, d, cid, req, t))
        }
    }

    /// Build the payload for a command: the command byte after the
    /// version-specific upgrades, and the JSON text in the nested or flat
    /// form, with the timestamp `t`.
    pub fn generate_payload(
        &self,
        command: CommandType,
        data: Option<&[u8]>,
        cid: Option<&[u8]>,
        req_type: Option<&[u8]>,
        t: u64,
    ) -> (r: (u32, Vec<u8>))
        requires
            self.id@.len() <= 0x10000,
            data matches Some(d) ==> d@.len() <= 0x1000000,
            cid matches Some(c) ==> c@.len() <= 0x10000,
            req_type matches Some(q) ==> q@.len() <= 0x10000,
        ensures
            r.0 == self.spec_generate_payload(command, obytes(data), obytes(cid), obytes(req_type), t).0,
            r.1@ == self.spec_generate_payload(command, obytes(data), obytes(cid), obytes(req_type), t).1,
    {
        proof {
            reveal_strlit("{\"1\":null}");
        }
        let v = self.version.tenths();
        let mut c = command.value();
        if v >= 34 {
            if matches!(command, CommandType::Control) {
                c = 0x0d;
            } else if matches!(command, CommandType::DpQuery) {
                c = 0x10;
            }
        }
        if matches!(self.dev_type, DevType::Device22) && c == 0x0a {
            c = 0x0d;
        }
        let default_data: Option<Vec<u8>> = if matches!(self.dev_type, DevType::Device22) && c
            == 0x0d && data.is_none() {
            let mut d: Vec<u8> = Vec::new();
            crate::encoding::append_str(&mut d, "{\"1\":null}");
            proof {
                assert(d@ =~= ab("{\"1\":null}"@));
            }
            Some(d)
        } else {
            None
        };
        let data_eff: Option<&[u8]> = match default_data {
            Some(ref d) => Some(d.as_slice()),
            None => data,
        };
        let use_nested = v >= 34 && (c == 0x0d || c == 0x40);
        let out: Vec<u8> = if use_nested {
            build_nested_payload(c, data_eff, cid, req_type, t)
        } else {
            build_flat_payload(self.id.as_slice(), data_eff, cid, req_type, t)
        };
        (c, out)
    }

    /// The heartbeat payload: the flat identity object under `HeartBeat`.
    pub open spec fn spec_heartbeat_payload(&self) -> Seq<u8> {
        ab("{\"gwId\":\""@) + self.id@ + ab("\",\"devId\":\""@) + self.id@ + ab("\"}"@)
    }

    /// Build the heartbeat command and payload.
    pub fn generate_heartbeat_payload(&self) -> (r: (u32, Vec<u8>))
        requires
            self.id@.len() <= 0x10000,
        ensures
            r.0 == CommandType::HeartBeat.spec_value(),
            r.1@ == self.spec_heartbeat_payload(),
    {
        proof {
            reveal_strlit("{\"gwId\":\"");
            reveal_strlit("\",\"devId\":\"");
            reveal_strlit("\"}");
        }
        let mut out: Vec<u8> = Vec::new();
        crate::encoding::append_str(&mut out, "{\"gwId\":\"");
        crate::encoding::append_bytes(&mut out, self.id.as_slice());
        crate::encoding::append_str(&mut out, "\",\"devId\":\"");
        crate::encoding::append_bytes(&mut out, self.id.as_slice());
        crate::encoding::append_str(&mut out, "\"}");
        proof {
            assert(out@ =~= self.spec_heartbeat_payload());
        }
        (0x09, out)
    }

    /// Build the fixed sub-device discovery request: `LanExtStream` with an
    /// empty `cids` list and the online-status request type.
    pub fn sub_discover_payload(&self, t: u64) -> (r: (u32, Vec<u8>))
        requires
            self.id@.len() <= 0x10000,
        ensures
            r.0 == self.spec_generate_payload(
                CommandType::LanExtStream,
                Some(ab("{\"cids\":[]}"@)),
                None,
                Some(ab("subdev_online_stat_query"@)),
                t,
            ).0,
            r.1@ == self.spec_generate_payload(
                CommandType::LanExtStream,
                Some(ab("{\"cids\":[]}"@)),
                None,
                Some(ab("subdev_online_stat_query"@)),
                t,
            ).1,
    {
        proof {
            reveal_strlit("{\"cids\":[]}");
            reveal_strlit("subdev_online_stat_query");
        }
        let mut data: Vec<u8> = Vec::new();
        crate::encoding::append_str(&mut data, "{\"cids\":[]}");
        let mut req: Vec<u8> = Vec::new();
        crate::encoding::append_str(&mut req, "subdev_online_stat_query");
        proof {
            assert(data@ =~= ab("{\"cids\":[]}"@));
            assert(req@ =~= ab("subdev_online_stat_query"@));
        }
        self.generate_payload(
            CommandType::LanExtStream,
            Some(data.as_slice()),
            None,
            Some(req.as_slice()),
            t,
        )
    }
}

/// Build the nested payload text, as `spec_nested_payload` describes.
#[verifier::spinoff_prover]
#[verifier::rlimit(100)]
fn build_nested_payload(
    c: u32,
    data: Option<&[u8]>,
    cid: Option<&[u8]>,
    req_type: Option<&[u8]>,
    t: u64,
) -> (out: Vec<u8>)
    requires
        data matches Some(d) ==> d@.len() <= 0x1000000,
        cid matches Some(ci) ==> ci@.len() <= 0x10000,
        req_type matches Some(q) ==> q@.len() <= 0x10000,
    ensures
        out@ == spec_nested_payload(c, obytes(data), obytes(cid), obytes(req_type), t),
{
    proof {
        reveal_strlit("{");
        reveal_strlit("}");
        reveal_strlit("\"");
        reveal_strlit("\"cid\":\"");
        reveal_strlit("\",");
        reveal_strlit("\"protocol\":5,\"t\":");
        reveal_strlit(",\"data\":{");
        reveal_strlit(",\"reqType\":\"");
        crate::encoding::lemma_dec_digits_u64(t);
    }
    let data_obj = build_nested_data_obj(c, data, cid);
    let mut out: Vec<u8> = Vec::new();
    crate::encoding::append_str(&mut out, "{");
    if let Some(ci) = cid {
        crate::encoding::append_str(&mut out, "\"cid\":\"");
        crate::encoding::append_bytes(&mut out, ci);
        crate::encoding::append_str(&mut out, "\",");
    }
    crate::encoding::append_str(&mut out, "\"protocol\":5,\"t\":");
    let tdec = crate::encoding::u64_to_dec(t);
    crate::encoding::append_bytes(&mut out, tdec.as_slice());
    crate::encoding::append_str(&mut out, ",\"data\":{");
    crate::encoding::append_bytes(&mut out, data_obj.as_slice());
    crate::encoding::append_str(&mut out, "}");
    if let Some(rt) = req_type {
        crate::encoding::append_str(&mut out, ",\"reqType\":\"");
        crate::encoding::append_bytes(&mut out, rt);
        crate::encoding::append_str(&mut out, "\"");
    }
    crate::encoding::append_str(&mut out, "}");
    proof {
        assert(out@ =~= spec_nested_payload(c, obytes(data), obytes(cid), obytes(req_type), t));
    }
    out
}

/// Build the inner data object, as `spec_nested_data_obj` describes.
#[verifier::spinoff_prover]
#[verifier::rlimit(100)]
fn build_nested_data_obj(c: u32, data: Option<&[u8]>, cid: Option<&[u8]>) -> (out: Vec<u8>)
    requires
        data matches Some(d) ==> d@.len() <= 0x1000000,
        cid matches Some(ci) ==> ci@.len() <= 0x10000,
    ensures
        out@ == spec_nested_data_obj(c, obytes(data), obytes(cid)),
        out@.len() <= 0x1020000,
{
    proof {
        reveal_strlit(",");
        reveal_strlit("\"cid\":\"");
        reveal_strlit("\",\"ctype\":0");
        reveal_strlit("\"dps\":");
    }
    let mut out: Vec<u8> = Vec::new();
    if let Some(ci) = cid {
        crate::encoding::append_str(&mut out, "\"cid\":\"");
        crate::encoding::append_bytes(&mut out, ci);
        crate::encoding::append_str(&mut out, "\",\"ctype\":0");
    }
    if let Some(d) = data {
        if c == 0x40 {
            if d.len() >= 2 && d[0] == 123 && d[d.len() - 1] == 125 {
                let inner = &d[1..d.len() - 1];
                if inner.len() > 0 {
                    if cid.is_some() {
                        crate::encoding::append_str(&mut out, ",");
                    }
                    crate::encoding::append_bytes(&mut out, inner);
                }
            }
        } else {
            if cid.is_some() {
                crate::encoding::append_str(&mut out, ",");
            }
            crate::encoding::append_str(&mut out, "\"dps\":");
            crate::encoding::append_bytes(&mut out, d);
        }
    }
    proof {
        assert(out@ =~= spec_nested_data_obj(c, obytes(data), obytes(cid)));
    }
    out
}

/// Build the flat payload text, as `spec_flat_payload` describes.
#[verifier::spinoff_prover]
#[verifier::rlimit(100)]
fn build_flat_payload(
    id: &[u8],
    data: Option<&[u8]>,
    cid: Option<&[u8]>,
    req_type: Option<&[u8]>,
    t: u64,
) -> (out: Vec<u8>)
    requires
        id@.len() <= 0x10000,
        data matches Some(d) ==> d@.len() <= 0x1000000,
        cid matches Some(ci) ==> ci@.len() <= 0x10000,
        req_type matches Some(q) ==> q@.len() <= 0x10000,
    ensures
        out@ == spec_flat_payload(id@, obytes(data), obytes(cid), obytes(req_type), t),
{
    proof {
        reveal_strlit("{");
        reveal_strlit("}");
        reveal_strlit("\"");
        reveal_strlit("\"cid\":\"");
        reveal_strlit("\",");
        reveal_strlit(",\"reqType\":\"");
        reveal_strlit(",\"dps\":");
        reveal_strlit("\"gwId\":\"");
        reveal_strlit("\",\"devId\":\"");
        reveal_strlit("\",\"uid\":\"");
        reveal_strlit("\",\"t\":\"");
        crate::encoding::lemma_dec_digits_u64(t);
    }
    let mut out: Vec<u8> = Vec::new();
    crate::encoding::append_str(&mut out, "{");
    if let Some(ci) = cid {
        crate::encoding::append_str(&mut out, "\"cid\":\"");
        crate::encoding::append_bytes(&mut out, ci);
        crate::encoding::append_str(&mut out, "\",");
    }
    crate::encoding::append_str(&mut out, "\"gwId\":\"");
    crate::encoding::append_bytes(&mut out, id);
    crate::encoding::append_str(&mut out, "\",\"devId\":\"");
    match cid {
        Some(ci) => crate::encoding::append_bytes(&mut out, ci),
        None => crate::encoding::append_bytes(&mut out, id),
    }
    crate::encoding::append_str(&mut out, "\",\"uid\":\"");
    crate::encoding::append_bytes(&mut out, id);
    crate::encoding::append_str(&mut out, "\",\"t\":\"");
    let tdec = crate::encoding::u64_to_dec(t);
    crate::encoding::append_bytes(&mut out, tdec.as_slice());
    crate::encoding::append_str(&mut out, "\"");
    if let Some(d) = data {
        crate::encoding::append_str(&mut out, ",\"dps\":");
        crate::encoding::append_bytes(&mut out, d);
    }
    if let Some(rt) = req_type {
        crate::encoding::append_str(&mut out, ",\"reqType\":\"");
        crate::encoding::append_bytes(&mut out, rt);
        crate::encoding::append_str(&mut out, "\"");
    }
    crate::encoding::append_str(&mut out, "}");
    proof {
        assert(out@ =~= spec_flat_payload(id@, obytes(data), obytes(cid), obytes(req_type), t));
    }
    out
}

impl DeviceCore {
    /// The key unpacking uses: the active key from version 3.4 up, none
    /// below (CRC footers).
    pub open spec fn spec_unpack_key(&self) -> Option<Seq<u8>> {
        if self.version.spec_tenths() >= 34 {
            Some(self.spec_active_key())
        } else {
            None
        }
    }

    /// Unpack an inbound frame; at version 3.3 in default mode, a frame
    /// that fails with the HMAC footer but passes with the CRC footer
    /// reveals a device22 firmware, and the mode switches.
    pub fn unpack_and_check_dev22(&mut self, packet: &[u8], header: TuyaHeader) -> (r: Result<
        TuyaMessage,
        TuyaError,
    >)
        ensures
            ({
                let first = crate::protocol::spec_unpack(
                    packet@,
                    old(self).spec_unpack_key(),
                    Some(header),
                    Some(false),
                );
                let second = crate::protocol::spec_unpack(packet@, None, Some(header), Some(false));
                let fallback = old(self).version.spec_tenths() == 33 && old(self).dev_type
                    != DevType::Device22 && second is Ok;
                match first {
                    Ok(m) => r matches Ok(rm) && rm@ == m && *final(self) == *old(self),
                    Err(k) => {
                        if fallback {
                            r matches Ok(rm) && rm@ == second->Ok_0 && *final(self) == (DeviceCore {
                                dev_type: DevType::Device22,
                                ..*old(self)
                            })
                        } else {
                            r matches Err(e) && crate::protocol::spec_unpack_error(k, e)
                                && *final(self) == *old(self)
                        }
                    },
                }
            }),
    {
        let v = self.version.tenths();
        let key = self.get_cipher_key();
        let hmac_key: Option<&[u8]> = if v >= 34 {
            Some(key.as_slice())
        } else {
            None
        };
        match crate::protocol::unpack_message(packet, hmac_key, Some(header), Some(false)) {
            Ok(m) => Ok(m),
            Err(e) => {
                if v == 33 && !matches!(self.dev_type, DevType::Device22) {
                    match crate::protocol::unpack_message(packet, None, Some(header), Some(false)) {
                        Ok(d) => {
                            self.set_dev_type(DevType::Device22);
                            Ok(d)
                        },
                        Err(_) => Err(e),
                    }
                } else {
                    Err(e)
                }
            },
        }
    }

    /// What cleaning an inbound payload yields: the plaintext after the
    /// version-specific decryption and header stripping, and the
    /// compatibility mode afterwards (the "data unvalid" token at versions
    /// 3.3 and 3.4 reveals a device22 firmware).
    pub open spec fn spec_clean_result(&self, payload: Seq<u8>, prefix: u32) -> Result<
        (Seq<u8>, DevType),
        TuyaError,
    > {
        let v = self.version.spec_tenths();
        let key = self.spec_active_key();
        let tag = self.version.spec_tag_bytes();
        if key.len() != 16 {
            Err(TuyaError::EncryptionFailed)
        } else if v >= 34 {
            let p1res = if prefix == PREFIX_55AA {
                crate::crypto::spec_ecb_decrypt(key, payload)
            } else {
                Some(payload)
            };
            match p1res {
                None => Err(TuyaError::DecryptionFailed),
                Some(p1) => {
                    let p2 = if self.spec_has_version_header(p1) {
                        p1.skip(15)
                    } else {
                        p1
                    };
                    let dev2 = if v == 34 && self.dev_type != DevType::Device22
                        && crate::encoding::contains_seq(p2, ab("data unvalid"@)) {
                        DevType::Device22
                    } else {
                        self.dev_type
                    };
                    Ok((p2, dev2))
                },
            }
        } else if v >= 32 {
            let p1 = if payload.len() >= 15 && payload.take(3) == tag {
                payload.skip(15)
            } else {
                payload
            };
            let p2res: Result<Seq<u8>, TuyaError> = if p1.len() == 0 {
                Ok(p1)
            } else {
                match crate::crypto::spec_ecb_decrypt(key, p1) {
                    Some(d) => Ok(
                        if self.spec_has_version_header(d) {
                            d.skip(15)
                        } else {
                            d
                        },
                    ),
                    None => {
                        if ((v == 33 || v == 34) && crate::encoding::contains_seq(
                            p1,
                            ab("data unvalid"@),
                        )) || (p1.len() > 0 && p1[0] == 123) {
                            Ok(p1)
                        } else {
                            Err(TuyaError::DecryptionFailed)
                        }
                    },
                }
            };
            match p2res {
                Err(e) => Err(e),
                Ok(p2) => {
                    let dev2 = if (v == 33 || v == 34) && self.dev_type != DevType::Device22
                        && crate::encoding::contains_seq(p2, ab("data unvalid"@)) {
                        DevType::Device22
                    } else {
                        self.dev_type
                    };
                    Ok((p2, dev2))
                },
            }
        } else {
            Ok((payload, self.dev_type))
        }
    }

    /// Decrypt and clean an inbound payload, switching to device22 mode
    /// where its plaintext carries the "data unvalid" token, as
    /// `spec_clean_result` describes.
    pub fn decrypt_and_clean_payload(&mut self, payload: Vec<u8>, prefix: u32) -> (r: Result<
        Vec<u8>,
        TuyaError,
    >)
        ensures
            match old(self).spec_clean_result(payload@, prefix) {
                Ok(pd) => r matches Ok(p) && p@ == pd.0 && *final(self) == (DeviceCore {
                    dev_type: pd.1,
                    ..*old(self)
                }),
                Err(e0) => r matches Err(e) && e == e0 && *final(self) == *old(self),
            },
    {
        proof {
            reveal_strlit("data unvalid");
        }
        let v = self.version.tenths();
        let key = self.get_cipher_key();
        if key.len() != 16 {
            return Err(TuyaError::EncryptionFailed);
        }
        let cipher = match TuyaCipher::new(key.as_slice()) {
            Ok(c) => c,
            Err(_) => {
                return Err(TuyaError::EncryptionFailed);
            },
        };
        let mut needle: Vec<u8> = Vec::new();
        crate::encoding::append_str(&mut needle, "data unvalid");
        proof {
            assert(needle@ =~= ab("data unvalid"@));
        }
        if v >= 34 {
            let p1 = if prefix == PREFIX_55AA {
                match cipher.decrypt(payload.as_slice(), false, None, None) {
                    Ok(p) => p,
                    Err(_) => {
                        return Err(TuyaError::DecryptionFailed);
                    },
                }
            } else {
                payload
            };
            let p2 = if self.has_version_header(p1.as_slice()) {
                self.remove_version_header(p1)
            } else {
                p1
            };
            if v == 34 && !matches!(self.dev_type, DevType::Device22)
                && crate::encoding::contains_bytes(p2.as_slice(), needle.as_slice()) {
                self.set_dev_type(DevType::Device22);
            }
            Ok(p2)
        } else if v >= 32 {
            let tag = self.version.tag_bytes();
            let p1 = if payload.len() >= 15 && crate::encoding::bytes_eq(
                &payload.as_slice()[0..3],
                tag.as_slice(),
            ) {
                proof {
                    assert(payload@.subrange(0, 3) =~= payload@.take(3));
                }
                self.remove_version_header(payload)
            } else {
                proof {
                    if payload@.len() >= 3 {
                        assert(payload@.subrange(0, 3) =~= payload@.take(3));
                    }
                }
                payload
            };
            let p2 = if p1.len() == 0 {
                p1
            } else {
                match cipher.decrypt(p1.as_slice(), false, None, None) {
                    Ok(d) => {
                        if self.has_version_header(d.as_slice()) {
                            self.remove_version_header(d)
                        } else {
                            d
                        }
                    },
                    Err(_) => {
                        let looks_unvalid = (v == 33 || v == 34) && crate::encoding::contains_bytes(
                            p1.as_slice(),
                            needle.as_slice(),
                        );
                        if looks_unvalid || p1[0] == 123 {
                            p1
                        } else {
                            return Err(TuyaError::DecryptionFailed);
                        }
                    },
                }
            };
            if (v == 33 || v == 34) && !matches!(self.dev_type, DevType::Device22)
                && crate::encoding::contains_bytes(p2.as_slice(), needle.as_slice()) {
                self.set_dev_type(DevType::Device22);
            }
            Ok(p2)
        } else {
            Ok(payload)
        }
    }
}

/// What session-key negotiation produces: the HMAC to send back as the
/// final negotiation message, and the derived session key.
pub struct HandshakeOutcome {
    /// HMAC-SHA256 of the remote nonce under the local key.
    pub rkey_hmac: Vec<u8>,
    /// The encrypted nonce-XOR, the session key for the connection.
    pub session_key: Vec<u8>,
}

/// The byte-wise XOR of the local nonce with the remote nonce cycled.
pub open spec fn spec_xor_session_key(local_nonce: Seq<u8>, remote_nonce: Seq<u8>) -> Seq<u8> {
    Seq::new(
        local_nonce.len(),
        |i: int| local_nonce[i] ^ remote_nonce[i % (remote_nonce.len() as int)],
    )
}

/// What the handshake derives from the negotiation response: the reply
/// HMAC and the session key, or the error the response earns. The response
/// must be `SessKeyNegResp` with at least 48 payload bytes (16 of remote
/// nonce, 32 of HMAC over the local nonce); the session key is the nonce
/// XOR encrypted under the local key, by ECB at 3.4 and by GCM (bytes 12
/// to 28 of the sealed output) at 3.5.
pub open spec fn spec_handshake(
    local_key: Seq<u8>,
    local_nonce: Seq<u8>,
    resp_cmd: u32,
    resp_payload: Seq<u8>,
    version: Version,
) -> Result<(Seq<u8>, Seq<u8>), TuyaError> {
    if resp_cmd != CommandType::SessKeyNegResp.spec_value() || resp_payload.len() < 48 {
        Err(TuyaError::KeyOrVersionError)
    } else {
        let remote_nonce = resp_payload.take(16);
        let remote_hmac = resp_payload.subrange(16, 48);
        if remote_hmac != crate::protocol::hmac_sha256_of(local_key, local_nonce) {
            Err(TuyaError::EncryptionFailed)
        } else if local_key.len() != 16 {
            Err(TuyaError::EncryptionFailed)
        } else {
            let rkey = crate::protocol::hmac_sha256_of(local_key, remote_nonce);
            let skey = spec_xor_session_key(local_nonce, remote_nonce);
            let enc = if version.spec_tenths() >= 35 {
                crate::crypto::gcm_seal(
                    local_key,
                    local_nonce.take(12),
                    Seq::<u8>::empty(),
                    skey,
                ).take(16)
            } else {
                crate::crypto::ecb_enc_blocks(local_key, skey)
            };
            Ok((rkey, enc))
        }
    }
}

/// Derive the session key from the negotiation response, as
/// `spec_handshake` describes.
pub fn handshake_session_key(
    local_key: &[u8],
    local_nonce: &[u8],
    resp: &TuyaMessage,
    version: Version,
) -> (r: Result<HandshakeOutcome, TuyaError>)
    requires
        local_nonce@.len() == 16,
    ensures
        match r {
            Ok(h) => spec_handshake(local_key@, local_nonce@, resp@.cmd, resp@.payload, version)
                == Ok::<(Seq<u8>, Seq<u8>), TuyaError>((h.rkey_hmac@, h.session_key@)),
            Err(e) => spec_handshake(local_key@, local_nonce@, resp@.cmd, resp@.payload, version)
                == Err::<(Seq<u8>, Seq<u8>), TuyaError>(e),
        },
{
    if resp.cmd != 0x04 || resp.payload.len() < 48 {
        return Err(TuyaError::KeyOrVersionError);
    }
    let remote_nonce = &resp.payload.as_slice()[0..16];
    let remote_hmac = &resp.payload.as_slice()[16..48];
    proof {
        assert(remote_nonce@ =~= resp@.payload.take(16));
    }
    let expected = crate::protocol::hmac_sha256(local_key, local_nonce);
    if !crate::encoding::bytes_eq(remote_hmac, expected.as_slice()) {
        return Err(TuyaError::EncryptionFailed);
    }
    if local_key.len() != 16 {
        return Err(TuyaError::EncryptionFailed);
    }
    let rkey_hmac = crate::protocol::hmac_sha256(local_key, remote_nonce);
    let mut skey: Vec<u8> = Vec::new();
    let mut i: usize = 0;
    while i < 16
        invariant
            i <= 16,
            local_nonce@.len() == 16,
            remote_nonce@.len() == 16,
            skey@ == spec_xor_session_key(local_nonce@, remote_nonce@).take(i as int),
        decreases 16 - i,
    {
        let b = local_nonce[i] ^ remote_nonce[i % 16];
        skey.push(b);
        i = i + 1;
        proof {
            assert(skey@ =~= spec_xor_session_key(local_nonce@, remote_nonce@).take(i as int));
        }
    }
    proof {
        assert(skey@ =~= spec_xor_session_key(local_nonce@, remote_nonce@));
    }
    let cipher = match TuyaCipher::new(local_key) {
        Ok(c) => c,
        Err(_) => {
            return Err(TuyaError::EncryptionFailed);
        },
    };
    let session_key: Vec<u8> = if version.tenths() >= 35 {
        let iv = &local_nonce[0..12];
        let enc = match cipher.encrypt(skey.as_slice(), false, Some(iv), None, false) {
            Ok(v) => v,
            Err(_) => {
                return Err(TuyaError::EncryptionFailed);
            },
        };
        proof {
            assert(iv@ =~= local_nonce@.take(12));
            assert(iv@.take(12) =~= local_nonce@.take(12));
        }
        let out = vstd::slice::slice_to_vec(&enc.as_slice()[12..28]);
        proof {
            assert(out@ =~= crate::crypto::gcm_seal(
                local_key@,
                local_nonce@.take(12),
                Seq::<u8>::empty(),
                skey@,
            ).take(16));
        }
        out
    } else {
        match cipher.encrypt(skey.as_slice(), false, None, None, false) {
            Ok(v) => v,
            Err(_) => {
                return Err(TuyaError::EncryptionFailed);
            },
        }
    };
    Ok(HandshakeOutcome { rkey_hmac, session_key })
}

/// The 32-bit word at offset `i` of a byte sequence.
pub open spec fn spec_word_at(data: Seq<u8>, i: int) -> u32 {
    crate::protocol::u32_from_be(data.subrange(i, i + 4))
}

/// Whether the word at offset `i` is one of the two frame prefixes.
pub open spec fn spec_prefix_at(data: Seq<u8>, i: int) -> bool {
    spec_word_at(data, i) == PREFIX_55AA || spec_word_at(data, i) == PREFIX_6699
}

/// Find the first frame prefix in a buffer, looking at most 1024 offsets
/// in, as the inbound reader does on a stream.
pub fn scan_for_prefix(data: &[u8]) -> (r: Option<usize>)
    ensures
        match r {
            Some(i) => i + 4 <= data@.len() && i < 1024 && spec_prefix_at(data@, i as int)
                && forall|j: int| 0 <= j < i ==> !spec_prefix_at(data@, j),
            None => forall|j: int|
                0 <= j < 1024 && j + 4 <= data@.len() ==> !spec_prefix_at(data@, j),
        },
{
    let len: usize = data.len();
    let mut i: usize = 0;
    while i < 1024 && i + 4 <= len
        invariant
            len == data@.len(),
            i <= 1024,
            forall|j: int| 0 <= j < i ==> !spec_prefix_at(data@, j),
        decreases 1024 - i,
    {
        let w = crate::protocol::read_be32(data, i);
        if w == PREFIX_55AA || w == PREFIX_6699 {
            return Some(i);
        }
        proof {
            assert(!spec_prefix_at(data@, i as int));
        }
        i = i + 1;
    }
    proof {
        assert(forall|j: int| 0 <= j < 1024 && j + 4 <= data@.len() ==> !spec_prefix_at(data@, j));
    }
    None
}

/// The common front of every synthetic error body: the error text under
/// `"Error"` and the numeric code, in decimal, under `"Err"`.
pub open spec fn spec_error_base(code: u32) -> Seq<u8> {
    ab("{\"Error\":\""@) + ab(crate::error::spec_error_message(code)) + ab("\",\"Err\":\""@)
        + crate::encoding::dec_digits(code as nat) + ab("\""@)
}

/// A synthetic error body with no extra fields.
pub open spec fn spec_error_payload(code: u32) -> Seq<u8> {
    spec_error_base(code) + ab("}"@)
}

/// A synthetic error body carrying an error text under `"payload_str"`.
pub open spec fn spec_error_payload_text(code: u32, text: Seq<u8>) -> Seq<u8> {
    spec_error_base(code) + ab(",\"payload_str\":\""@) + text + ab("\"}"@)
}

/// A synthetic error body carrying raw bytes, hex-encoded, under
/// `"payload_raw"`, with the command they arrived under.
pub open spec fn spec_error_payload_raw(code: u32, raw: Seq<u8>, cmd: u32) -> Seq<u8> {
    spec_error_base(code) + ab(",\"payload_raw\":\""@) + crate::encoding::hex_bytes(raw) + ab(
        "\",\"cmd\":"@,
    ) + crate::encoding::dec_digits(cmd as nat) + ab("}"@)
}

/// A synthetic error body carrying a JSON value under `"Payload"`.
pub open spec fn spec_error_payload_json(code: u32, json: Seq<u8>) -> Seq<u8> {
    spec_error_base(code) + ab(",\"Payload\":"@) + json + ab("}"@)
}

/// A synthetic broadcast message: sequence number and command zero, with
/// the given body.
pub open spec fn spec_synthetic_message(m: crate::protocol::SpecMessage, body: Seq<u8>) -> bool {
    m.seqno == 0 && m.cmd == 0 && m.retcode is None && m.payload == body && m.prefix == PREFIX_55AA
        && m.iv is None
}

/// Build the common front of a synthetic error body.
fn error_base(code: u32) -> (out: Vec<u8>)
    ensures
        out@ == spec_error_base(code),
        out@.len() <= 80,
{
    proof {
        reveal_strlit("{\"Error\":\"");
        reveal_strlit("\",\"Err\":\"");
        reveal_strlit("\"");
        crate::encoding::lemma_dec_digits_u64(code as u64);
    }
    let mut out: Vec<u8> = Vec::new();
    crate::encoding::append_str(&mut out, "{\"Error\":\"");
    let m = crate::error::get_error_message(code);
    proof {
        assert(m@.len() <= 33) by {
            reveal_strlit("Connection Successful");
            reveal_strlit("Invalid JSON Response from Device");
            reveal_strlit("Network Error: Unable to Connect");
            reveal_strlit("Timeout Waiting for Device");
            reveal_strlit("Specified Value Out of Range");
            reveal_strlit("Unexpected Payload from Device");
            reveal_strlit("Network Error: Device Unreachable");
            reveal_strlit("Device in Unknown State");
            reveal_strlit("Function Not Supported by Device");
            reveal_strlit("Device22 Detected: Retry Command");
            reveal_strlit("Missing Tuya Cloud Key and Secret");
            reveal_strlit("Invalid JSON Response from Cloud");
            reveal_strlit("Unable to Get Cloud Token");
            reveal_strlit("Missing Function Parameters");
            reveal_strlit("Error Response from Tuya Cloud");
            reveal_strlit("Check device key or version");
            reveal_strlit("Device ID already exists");
            reveal_strlit("Unknown Error");
        }
    }
    crate::encoding::append_str(&mut out, m);
    crate::encoding::append_str(&mut out, "\",\"Err\":\"");
    let d = crate::encoding::u64_to_dec(code as u64);
    crate::encoding::append_bytes(&mut out, d.as_slice());
    crate::encoding::append_str(&mut out, "\"");
    proof {
        assert(out@ =~= spec_error_base(code));
    }
    out
}

/// Wrap a synthetic error body in a broadcast message.
fn synthetic_message(payload: Vec<u8>) -> (r: TuyaMessage)
    ensures
        spec_synthetic_message(r@, payload@),
{
    TuyaMessage { seqno: 0, cmd: 0, retcode: None, payload, prefix: PREFIX_55AA, iv: None }
}

/// A synthetic error broadcast with no extra fields.
pub fn error_message(code: u32) -> (r: TuyaMessage)
    ensures
        spec_synthetic_message(r@, spec_error_payload(code)),
{
    proof {
        reveal_strlit("}");
    }
    let mut out = error_base(code);
    crate::encoding::append_str(&mut out, "}");
    proof {
        assert(out@ =~= spec_error_payload(code));
    }
    synthetic_message(out)
}

/// A synthetic error broadcast carrying an error text.
pub fn error_message_with_text(code: u32, text: &[u8]) -> (r: TuyaMessage)
    requires
        text@.len() <= 0x100000,
    ensures
        spec_synthetic_message(r@, spec_error_payload_text(code, text@)),
{
    proof {
        reveal_strlit(",\"payload_str\":\"");
        reveal_strlit("\"}");
    }
    let mut out = error_base(code);
    crate::encoding::append_str(&mut out, ",\"payload_str\":\"");
    crate::encoding::append_bytes(&mut out, text);
    crate::encoding::append_str(&mut out, "\"}");
    proof {
        assert(out@ =~= spec_error_payload_text(code, text@));
    }
    synthetic_message(out)
}

/// A synthetic error broadcast carrying raw bytes as hex, with their
/// command.
pub fn error_message_with_raw(code: u32, raw: &[u8], cmd: u32) -> (r: TuyaMessage)
    requires
        raw@.len() <= 0x100000,
    ensures
        spec_synthetic_message(r@, spec_error_payload_raw(code, raw@, cmd)),
{
    proof {
        reveal_strlit(",\"payload_raw\":\"");
        reveal_strlit("\",\"cmd\":");
        reveal_strlit("}");
        crate::encoding::lemma_dec_digits_u64(cmd as u64);
    }
    let mut out = error_base(code);
    crate::encoding::append_str(&mut out, ",\"payload_raw\":\"");
    let h = crate::encoding::to_hex(raw);
    crate::encoding::append_bytes(&mut out, h.as_slice());
    crate::encoding::append_str(&mut out, "\",\"cmd\":");
    let d = crate::encoding::u64_to_dec(cmd as u64);
    crate::encoding::append_bytes(&mut out, d.as_slice());
    crate::encoding::append_str(&mut out, "}");
    proof {
        assert(out@ =~= spec_error_payload_raw(code, raw@, cmd));
    }
    synthetic_message(out)
}

/// A synthetic error broadcast carrying a JSON value.
pub fn error_message_with_json(code: u32, json: &[u8]) -> (r: TuyaMessage)
    requires
        json@.len() <= 0x100000,
    ensures
        spec_synthetic_message(r@, spec_error_payload_json(code, json@)),
{
    proof {
        reveal_strlit(",\"Payload\":");
        reveal_strlit("}");
    }
    let mut out = error_base(code);
    crate::encoding::append_str(&mut out, ",\"Payload\":");
    crate::encoding::append_bytes(&mut out, json);
    crate::encoding::append_str(&mut out, "}");
    proof {
        assert(out@ =~= spec_error_payload_json(code, json@));
    }
    synthetic_message(out)
}

} // verus!
