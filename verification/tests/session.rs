use hmac::{KeyInit, Mac};
use rustuya::device::{handshake_session_key, DevType, DeviceCore};
use rustuya::error::{TuyaError, ERR_DEVTYPE, ERR_JSON, ERR_OFFLINE};
use rustuya::protocol::{
    unpack_message, CommandType, TuyaMessage, Version, PREFIX_55AA, PREFIX_6699,
};

fn core_v33() -> DeviceCore {
    DeviceCore::new(b"abcdef".to_vec(), b"0123456789ABCDEF".to_vec(), Version::V3_3)
}

#[test]
fn seqno_starts_at_one_and_increases() {
    let mut d = core_v33();
    let m1 = d.build_message(0x0a, Vec::new());
    let m2 = d.build_message(0x0a, Vec::new());
    assert_eq!(m1.seqno, 1);
    assert_eq!(m2.seqno, 2);
    assert!(m1.seqno < m2.seqno);
    // A reconnect resets the counter to 1.
    d.start_attempt();
    let m3 = d.build_message(0x0a, Vec::new());
    assert_eq!(m3.seqno, 1);
}

#[test]
fn failure_count_monotonic_and_resets() {
    let mut d = core_v33();
    assert_eq!(d.failure_count, 0);
    d.record_failure(&TuyaError::Timeout, false);
    assert_eq!(d.failure_count, 1);
    d.record_failure(&TuyaError::Offline, false);
    assert_eq!(d.failure_count, 2);
    d.record_inbound_success();
    assert_eq!(d.failure_count, 0);
}

#[test]
fn force_discovery_on_auto_mode_errors() {
    let mut d = core_v33();
    d.record_failure(&TuyaError::Timeout, true);
    assert!(!d.force_discovery);
    d.record_failure(&TuyaError::KeyOrVersionError, true);
    assert!(d.force_discovery);
    d.record_resolved();
    assert!(!d.force_discovery);
    d.record_failure(&TuyaError::Offline, true);
    assert!(d.force_discovery);
    // Errors outside automatic mode never force a scan.
    let mut d2 = core_v33();
    d2.record_failure(&TuyaError::Offline, false);
    assert!(!d2.force_discovery);
}

#[test]
fn backoff_formula() {
    let d = core_v33();
    // min(2^min(n - 1, 6) * 30, 600) for attempts n = 1, 2, ...
    let expected = [30u64, 60, 120, 240, 480, 600, 600, 600, 600];
    for (n, want) in expected.iter().enumerate() {
        assert_eq!(d.get_backoff_duration(n as u32), *want);
    }
}

#[test]
fn stop_rejects_commands_with_offline() {
    let mut d = core_v33();
    assert!(d.accept_command().is_ok());
    d.stop();
    assert!(d.stopped);
    assert!(!d.connected);
    assert!(matches!(d.accept_command(), Err(TuyaError::Offline)));
}

#[test]
fn version_32_starts_in_device22_mode() {
    let d = DeviceCore::new(b"id".to_vec(), b"0123456789ABCDEF".to_vec(), Version::V3_2);
    assert_eq!(d.dev_type, DevType::Device22);
    let d2 = core_v33();
    assert_eq!(d2.dev_type, DevType::Default);
}

#[test]
fn device22_transition_on_data_unvalid() {
    // After a successful 3.3 handshake the first inbound payload holds the
    // bytes of "data unvalid": the session switches to device22 mode.
    let mut d = core_v33();
    assert_eq!(d.dev_type, DevType::Default);
    let cleaned = d.decrypt_and_clean_payload(b"data unvalid".to_vec(), PREFIX_55AA).unwrap();
    assert_eq!(cleaned, b"data unvalid".to_vec());
    assert_eq!(d.dev_type, DevType::Device22);
    // From now on a DpQuery upgrades to ControlNew with default data.
    let (cmd, payload) = d.generate_payload(CommandType::DpQuery, None, None, None, 1700000000);
    assert_eq!(cmd, CommandType::ControlNew.value());
    let text = String::from_utf8(payload).unwrap();
    assert!(text.contains("\"dps\":{\"1\":null}"));
    // The synthetic broadcast for the transition carries code 908.
    let ev = rustuya::device::error_message(ERR_DEVTYPE);
    assert_eq!(ev.seqno, 0);
    assert_eq!(ev.cmd, 0);
    let body = String::from_utf8(ev.payload).unwrap();
    assert!(body.contains("\"Err\":\"908\""));
    assert!(body.contains("Device22 Detected: Retry Command"));
}

#[test]
fn device22_transition_on_data_unvalid_v34() {
    // The same token inside a 3.4 payload (ECB under the session cipher,
    // classic prefix) also switches the mode.
    let mut d = DeviceCore::new(b"id".to_vec(), b"0123456789ABCDEF".to_vec(), Version::V3_4);
    assert_eq!(d.dev_type, DevType::Default);
    let cipher = rustuya::crypto::TuyaCipher::new(b"0123456789ABCDEF").unwrap();
    let encrypted = cipher.encrypt(b"data unvalid", false, None, None, true).unwrap();
    let cleaned = d.decrypt_and_clean_payload(encrypted, PREFIX_55AA).unwrap();
    assert_eq!(cleaned, b"data unvalid".to_vec());
    assert_eq!(d.dev_type, DevType::Device22);
}

#[test]
fn no_device22_transition_at_v35() {
    // At 3.5 the token is passed through without a mode switch.
    let mut d = DeviceCore::new(b"id".to_vec(), b"0123456789ABCDEF".to_vec(), Version::V3_5);
    let cleaned = d.decrypt_and_clean_payload(b"data unvalid".to_vec(), PREFIX_6699).unwrap();
    assert_eq!(cleaned, b"data unvalid".to_vec());
    assert_eq!(d.dev_type, DevType::Default);
}

#[test]
fn clean_payload_strips_version_header_v33() {
    let mut d = core_v33();
    let cipher = rustuya::crypto::TuyaCipher::new(b"0123456789ABCDEF").unwrap();
    let inner = b"{\"dps\":{\"1\":true}}";
    let encrypted = cipher.encrypt(inner, false, None, None, true).unwrap();
    // Version tag plus 12 zero bytes, then the ciphertext.
    let mut payload = b"3.3".to_vec();
    payload.extend_from_slice(&[0u8; 12]);
    payload.extend_from_slice(&encrypted);
    let cleaned = d.decrypt_and_clean_payload(payload, PREFIX_55AA).unwrap();
    assert_eq!(cleaned, inner.to_vec());
    assert_eq!(d.dev_type, DevType::Default);
}

#[test]
fn clean_payload_passthrough_json_v33() {
    // A payload that fails to decrypt but looks like JSON passes through.
    let mut d = core_v33();
    let cleaned = d.decrypt_and_clean_payload(b"{\"ok\":1}".to_vec(), PREFIX_55AA).unwrap();
    assert_eq!(cleaned, b"{\"ok\":1}".to_vec());
}

#[test]
fn clean_payload_v34_decrypts_55aa() {
    let mut d = DeviceCore::new(b"id".to_vec(), b"0123456789ABCDEF".to_vec(), Version::V3_4);
    let cipher = rustuya::crypto::TuyaCipher::new(b"0123456789ABCDEF").unwrap();
    // A 3.4 inbound payload: version header inside the plaintext.
    let mut plain = b"3.4".to_vec();
    plain.extend_from_slice(&[0u8; 12]);
    plain.extend_from_slice(b"{\"dps\":{}}");
    let encrypted = cipher.encrypt(&plain, false, None, None, true).unwrap();
    let cleaned = d.decrypt_and_clean_payload(encrypted, PREFIX_55AA).unwrap();
    assert_eq!(cleaned, b"{\"dps\":{}}".to_vec());
}

#[test]
fn generate_payload_flat_form() {
    let d = core_v33();
    let (cmd, payload) =
        d.generate_payload(CommandType::DpQuery, None, None, None, 1700000000);
    assert_eq!(cmd, 0x0a);
    assert_eq!(
        String::from_utf8(payload).unwrap(),
        "{\"gwId\":\"abcdef\",\"devId\":\"abcdef\",\"uid\":\"abcdef\",\"t\":\"1700000000\"}"
    );
}

#[test]
fn generate_payload_flat_with_dps_and_cid() {
    let d = core_v33();
    let (cmd, payload) = d.generate_payload(
        CommandType::Control,
        Some(b"{\"1\":true}"),
        Some(b"subdev1"),
        None,
        42,
    );
    assert_eq!(cmd, 0x07);
    assert_eq!(
        String::from_utf8(payload).unwrap(),
        "{\"cid\":\"subdev1\",\"gwId\":\"abcdef\",\"devId\":\"subdev1\",\"uid\":\"abcdef\",\"t\":\"42\",\"dps\":{\"1\":true}}"
    );
}

#[test]
fn generate_payload_nested_form_v34() {
    let d = DeviceCore::new(b"abcdef".to_vec(), b"0123456789ABCDEF".to_vec(), Version::V3_4);
    let (cmd, payload) =
        d.generate_payload(CommandType::Control, Some(b"{\"1\":true}"), None, None, 42);
    // Control upgrades to ControlNew and takes the nested form.
    assert_eq!(cmd, 0x0d);
    assert_eq!(
        String::from_utf8(payload).unwrap(),
        "{\"protocol\":5,\"t\":42,\"data\":{\"dps\":{\"1\":true}}}"
    );
}

#[test]
fn generate_payload_nested_with_cid() {
    let d = DeviceCore::new(b"abcdef".to_vec(), b"0123456789ABCDEF".to_vec(), Version::V3_4);
    let (cmd, payload) = d.generate_payload(
        CommandType::Control,
        Some(b"{\"20\":true}"),
        Some(b"nodeid"),
        None,
        7,
    );
    assert_eq!(cmd, 0x0d);
    assert_eq!(
        String::from_utf8(payload).unwrap(),
        "{\"cid\":\"nodeid\",\"protocol\":5,\"t\":7,\"data\":{\"cid\":\"nodeid\",\"ctype\":0,\"dps\":{\"20\":true}}}"
    );
}

#[test]
fn sub_discover_request_shape() {
    let d = DeviceCore::new(b"abcdef".to_vec(), b"0123456789ABCDEF".to_vec(), Version::V3_4);
    let (cmd, payload) = d.sub_discover_payload(5);
    assert_eq!(cmd, CommandType::LanExtStream.value());
    assert_eq!(
        String::from_utf8(payload).unwrap(),
        "{\"protocol\":5,\"t\":5,\"data\":{\"cids\":[]},\"reqType\":\"subdev_online_stat_query\"}"
    );
}

#[test]
fn heartbeat_payload_shape() {
    let d = core_v33();
    let (cmd, payload) = d.generate_heartbeat_payload();
    assert_eq!(cmd, 0x09);
    assert_eq!(
        String::from_utf8(payload).unwrap(),
        "{\"gwId\":\"abcdef\",\"devId\":\"abcdef\"}"
    );
}

#[test]
fn dp_query_upgrades_at_v34() {
    let d = DeviceCore::new(b"x".to_vec(), b"0123456789ABCDEF".to_vec(), Version::V3_4);
    let (cmd, _) = d.generate_payload(CommandType::DpQuery, None, None, None, 0);
    assert_eq!(cmd, CommandType::DpQueryNew.value());
}

#[test]
fn handshake_success_and_derived_key() {
    // Local nonce 00..0F, local key A0..AF.
    let local_key: Vec<u8> = (0xA0..=0xAF).collect();
    let local_nonce: Vec<u8> = (0x00..=0x0F).collect();
    let remote_nonce: Vec<u8> = (0x10..=0x1F).collect();
    let mut mac = <hmac::Hmac<sha2::Sha256> as KeyInit>::new_from_slice(&local_key).unwrap();
    mac.update(&local_nonce);
    let remote_hmac = mac.finalize().into_bytes();
    let mut payload = remote_nonce.clone();
    payload.extend_from_slice(&remote_hmac);
    let resp = TuyaMessage {
        seqno: 2,
        cmd: CommandType::SessKeyNegResp.value(),
        retcode: None,
        payload,
        prefix: PREFIX_55AA,
        iv: None,
    };
    let out = handshake_session_key(&local_key, &local_nonce, &resp, Version::V3_4).unwrap();
    // The reply is the HMAC over the remote nonce.
    let mut mac2 = <hmac::Hmac<sha2::Sha256> as KeyInit>::new_from_slice(&local_key).unwrap();
    mac2.update(&remote_nonce);
    assert_eq!(out.rkey_hmac, mac2.finalize().into_bytes().to_vec());
    // The session key is the nonce XOR, ECB-encrypted under the local key.
    let xor: Vec<u8> = (0..16).map(|i| local_nonce[i] ^ remote_nonce[i]).collect();
    let cipher = rustuya::crypto::TuyaCipher::new(&local_key).unwrap();
    let expect = cipher.encrypt(&xor, false, None, None, false).unwrap();
    assert_eq!(out.session_key, expect);
    assert_eq!(out.session_key.len(), 16);
    // Subsequent frames packed under the derived key unpack with it.
    let mut core =
        DeviceCore::new(b"dev".to_vec(), local_key.clone(), Version::V3_4);
    core.session_key = Some(out.session_key.clone());
    let frame = rustuya::protocol::pack_message(
        &TuyaMessage {
            seqno: 3,
            cmd: 0x10,
            retcode: None,
            payload: b"{}".to_vec(),
            prefix: PREFIX_55AA,
            iv: None,
        },
        Some(&out.session_key),
    )
    .unwrap();
    let back = unpack_message(&frame, Some(&core.get_cipher_key()), None, Some(true)).unwrap();
    assert_eq!(back.payload, b"{}".to_vec());
}

#[test]
fn handshake_rejects_bad_hmac_and_short_payload() {
    let local_key: Vec<u8> = (0xA0..=0xAF).collect();
    let local_nonce: Vec<u8> = (0x00..=0x0F).collect();
    let short = TuyaMessage {
        seqno: 2,
        cmd: CommandType::SessKeyNegResp.value(),
        retcode: None,
        payload: vec![0u8; 47],
        prefix: PREFIX_55AA,
        iv: None,
    };
    assert!(matches!(
        handshake_session_key(&local_key, &local_nonce, &short, Version::V3_4),
        Err(TuyaError::KeyOrVersionError)
    ));
    let wrong = TuyaMessage {
        seqno: 2,
        cmd: CommandType::SessKeyNegResp.value(),
        retcode: None,
        payload: vec![0u8; 48],
        prefix: PREFIX_55AA,
        iv: None,
    };
    assert!(matches!(
        handshake_session_key(&local_key, &local_nonce, &wrong, Version::V3_4),
        Err(TuyaError::EncryptionFailed)
    ));
    let wrong_cmd = TuyaMessage {
        seqno: 2,
        cmd: 0x08,
        retcode: None,
        payload: vec![0u8; 48],
        prefix: PREFIX_55AA,
        iv: None,
    };
    assert!(matches!(
        handshake_session_key(&local_key, &local_nonce, &wrong_cmd, Version::V3_4),
        Err(TuyaError::KeyOrVersionError)
    ));
}

#[test]
fn pack_msg_round_trips_v33() {
    let mut d = core_v33();
    let (cmd, payload) = d.generate_payload(CommandType::DpQuery, None, None, None, 1);
    let msg = d.build_message(cmd, payload.clone());
    let frame = d.pack_msg(msg).unwrap();
    // DpQuery carries no version header; the payload is only encrypted.
    let back = unpack_message(&frame, None, None, Some(true)).unwrap();
    let cipher = rustuya::crypto::TuyaCipher::new(b"0123456789ABCDEF").unwrap();
    let plain = cipher.decrypt(&back.payload, false, None, None).unwrap();
    assert_eq!(plain, payload);
}

#[test]
fn pack_msg_round_trips_v35() {
    let mut d = DeviceCore::new(b"g".to_vec(), b"0123456789ABCDEF".to_vec(), Version::V3_5);
    let msg = d.build_message(0x09, b"{\"gwId\":\"g\",\"devId\":\"g\"}".to_vec());
    assert_eq!(msg.prefix, PREFIX_6699);
    let frame = d.pack_msg(msg).unwrap();
    let key = d.get_cipher_key();
    let back = unpack_message(&frame, Some(&key), None, Some(true)).unwrap();
    assert_eq!(back.payload, b"{\"gwId\":\"g\",\"devId\":\"g\"}".to_vec());
}

#[test]
fn error_message_bodies() {
    let m = rustuya::device::error_message(ERR_OFFLINE);
    assert_eq!(
        String::from_utf8(m.payload).unwrap(),
        "{\"Error\":\"Network Error: Device Unreachable\",\"Err\":\"905\"}"
    );
    let m2 = rustuya::device::error_message_with_raw(ERR_JSON, &[0xAB, 0x01], 8);
    assert_eq!(
        String::from_utf8(m2.payload).unwrap(),
        "{\"Error\":\"Invalid JSON Response from Device\",\"Err\":\"900\",\"payload_raw\":\"ab01\",\"cmd\":8}"
    );
    let m3 = rustuya::device::error_message_with_text(ERR_OFFLINE, b"gone");
    assert_eq!(
        String::from_utf8(m3.payload).unwrap(),
        "{\"Error\":\"Network Error: Device Unreachable\",\"Err\":\"905\",\"payload_str\":\"gone\"}"
    );
}

#[test]
fn error_codes_map_both_ways() {
    assert_eq!(TuyaError::Offline.code(), 905);
    assert_eq!(TuyaError::CrcMismatch.code(), 914);
    assert_eq!(TuyaError::HmacMismatch.code(), 914);
    assert_eq!(TuyaError::InvalidPayload.code(), 904);
    assert_eq!(TuyaError::Timeout.code(), 902);
    assert_eq!(TuyaError::Json(String::new()).code(), 900);
    assert_eq!(TuyaError::ConnectionFailed.code(), 901);
    assert_eq!(TuyaError::DuplicateDevice(String::new()).code(), 915);
    assert!(matches!(TuyaError::from_code(905), TuyaError::Offline));
    assert!(matches!(TuyaError::from_code(914), TuyaError::KeyOrVersionError));
    assert!(matches!(TuyaError::from_code(902), TuyaError::Timeout));
    assert!(matches!(TuyaError::from_code(1), TuyaError::Io(_)));
}

#[test]
fn scan_for_prefix_finds_first_frame() {
    let mut noise = vec![0x11u8, 0x22, 0x33];
    noise.extend_from_slice(&[0x00, 0x00, 0x55, 0xAA, 1, 2, 3]);
    assert_eq!(rustuya::device::scan_for_prefix(&noise), Some(3));
    let gcm = [0x00u8, 0x00, 0x66, 0x99, 0];
    assert_eq!(rustuya::device::scan_for_prefix(&gcm), Some(0));
    assert_eq!(rustuya::device::scan_for_prefix(&[0u8; 40]), None);
}

#[test]
fn unpack_and_check_dev22_fallback() {
    // A CRC-footed frame arriving at a 3.3 session that expected HMAC-style
    // handling is fine here (3.3 uses CRC); force the fallback by running a
    // 3.4 session against a CRC frame: it fails outright (no 3.3 fallback),
    // while a 3.3 session in default mode accepts its own CRC frames.
    let mut d33 = core_v33();
    let msg = TuyaMessage {
        seqno: 1,
        cmd: 0x08,
        retcode: None,
        payload: b"{}".to_vec(),
        prefix: PREFIX_55AA,
        iv: None,
    };
    let frame = rustuya::protocol::pack_message(&msg, None).unwrap();
    let header = rustuya::protocol::parse_header(&frame).unwrap();
    let got = d33.unpack_and_check_dev22(&frame, header).unwrap();
    assert_eq!(got.payload, b"{}".to_vec());
    assert_eq!(d33.dev_type, DevType::Default);
}
