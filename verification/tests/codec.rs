use hmac::{KeyInit, Mac};
use rustuya::error::TuyaError;
use rustuya::protocol::{
    pack_message, parse_header, unpack_message, CommandType, TuyaMessage, Version, PREFIX_55AA,
    PREFIX_6699,
};

fn msg_55aa(seqno: u32, cmd: u32, payload: Vec<u8>) -> TuyaMessage {
    TuyaMessage { seqno, cmd, retcode: None, payload, prefix: PREFIX_55AA, iv: None }
}

fn key16() -> Vec<u8> {
    b"0123456789ABCDEF".to_vec()
}

#[test]
fn control_frame_layout_v33() {
    // A version 3.3 Control frame: seqno 1, cmd 0x07, 32 bytes of
    // encrypted payload; packed length 16 + 32 + 4 + 4 = 56, prefix at the
    // front, suffix at the back.
    let cipher = rustuya::crypto::TuyaCipher::new(&key16()).unwrap();
    let encrypted = cipher.encrypt(b"{\"dps\":{\"1\":true}}", false, None, None, true).unwrap();
    assert_eq!(encrypted.len(), 32);
    let msg = msg_55aa(1, 0x07, encrypted);
    let frame = pack_message(&msg, None).unwrap();
    assert_eq!(frame.len(), 56);
    assert_eq!(&frame[0..4], &[0x00, 0x00, 0x55, 0xAA]);
    assert_eq!(&frame[52..56], &[0x00, 0x00, 0xAA, 0x55]);
    // The length field counts payload, CRC and suffix.
    let h = parse_header(&frame).unwrap();
    assert_eq!(h.prefix, PREFIX_55AA);
    assert_eq!(h.seqno, 1);
    assert_eq!(h.cmd, 0x07);
    assert_eq!(h.payload_len, 40);
    assert_eq!(h.total_length, 56);
}

#[test]
fn pack_unpack_round_trip_crc() {
    let msg = msg_55aa(7, 0x0a, b"{\"gwId\":\"x\"}".to_vec());
    let frame = pack_message(&msg, None).unwrap();
    let back = unpack_message(&frame, None, None, Some(true)).unwrap();
    assert_eq!(back.seqno, 7);
    assert_eq!(back.cmd, 0x0a);
    assert_eq!(back.retcode, None);
    assert_eq!(back.payload, msg.payload);
    assert_eq!(back.prefix, PREFIX_55AA);
    assert!(back.iv.is_none());
}

#[test]
fn pack_unpack_round_trip_hmac() {
    let key = key16();
    let msg = msg_55aa(3, 0x09, b"ping".to_vec());
    let frame = pack_message(&msg, Some(&key)).unwrap();
    // HMAC footer: 32 bytes instead of 4.
    assert_eq!(frame.len(), 16 + 4 + 32 + 4);
    let back = unpack_message(&frame, Some(&key), None, Some(true)).unwrap();
    assert_eq!(back.payload, b"ping".to_vec());
    // The HMAC footer matches what the hmac crate computes over the bytes
    // before it.
    let mut mac = <hmac::Hmac<sha2::Sha256> as KeyInit>::new_from_slice(&key).unwrap();
    mac.update(&frame[..20]);
    let tag = mac.finalize().into_bytes();
    assert_eq!(&frame[20..52], tag.as_slice());
}

#[test]
fn pack_unpack_round_trip_6699() {
    let key = key16();
    let msg = TuyaMessage {
        seqno: 9,
        cmd: 0x10,
        retcode: None,
        payload: b"{\"dps\":{}}".to_vec(),
        prefix: PREFIX_6699,
        iv: Some(vec![5u8; 12]),
    };
    let frame = pack_message(&msg, Some(&key)).unwrap();
    // 18-byte header, 12-byte IV, payload, 16-byte tag, 4-byte suffix.
    assert_eq!(frame.len(), 18 + 12 + 10 + 16 + 4);
    assert_eq!(&frame[0..4], &[0x00, 0x00, 0x66, 0x99]);
    assert_eq!(&frame[frame.len() - 4..], &[0x00, 0x00, 0x99, 0x66]);
    let back = unpack_message(&frame, Some(&key), None, Some(true)).unwrap();
    assert_eq!(back.seqno, 9);
    assert_eq!(back.cmd, 0x10);
    assert_eq!(back.payload, b"{\"dps\":{}}".to_vec());
    assert_eq!(back.iv, Some(vec![5u8; 12]));
}

#[test]
fn pack_unpack_round_trip_6699_retcode() {
    let key = key16();
    let msg = TuyaMessage {
        seqno: 1,
        cmd: 0x08,
        retcode: Some(0),
        payload: b"{\"a\":1}".to_vec(),
        prefix: PREFIX_6699,
        iv: Some(vec![1u8; 12]),
    };
    let frame = pack_message(&msg, Some(&key)).unwrap();
    let back = unpack_message(&frame, Some(&key), None, Some(false)).unwrap();
    assert_eq!(back.retcode, Some(0));
    assert_eq!(back.payload, b"{\"a\":1}".to_vec());
}

#[test]
fn pack_6699_without_key_fails() {
    let msg = TuyaMessage {
        seqno: 0,
        cmd: 0x25,
        retcode: None,
        payload: Vec::new(),
        prefix: PREFIX_6699,
        iv: None,
    };
    assert!(matches!(pack_message(&msg, None), Err(TuyaError::EncryptionFailed)));
}

#[test]
fn pack_6699_fresh_iv_when_absent() {
    let key = key16();
    let msg = TuyaMessage {
        seqno: 2,
        cmd: 0x0d,
        retcode: None,
        payload: b"x".to_vec(),
        prefix: PREFIX_6699,
        iv: None,
    };
    let frame = pack_message(&msg, Some(&key)).unwrap();
    let back = unpack_message(&frame, Some(&key), None, Some(true)).unwrap();
    assert_eq!(back.payload, b"x".to_vec());
    assert_eq!(back.iv.unwrap().len(), 12);
}

#[test]
fn crc_footer_matches_crc_crate() {
    let msg = msg_55aa(1, 0x0a, b"abc".to_vec());
    let frame = pack_message(&msg, None).unwrap();
    let body_end = frame.len() - 8;
    let crc = crc::Crc::<u32>::new(&crc::CRC_32_ISO_HDLC).checksum(&frame[..body_end]);
    assert_eq!(&frame[body_end..body_end + 4], &crc.to_be_bytes());
}

#[test]
fn crc_mismatch_is_rejected() {
    let msg = msg_55aa(1, 0x0a, b"abc".to_vec());
    let mut frame = pack_message(&msg, None).unwrap();
    let n = frame.len();
    frame[n - 5] ^= 0xff;
    assert!(matches!(
        unpack_message(&frame, None, None, Some(true)),
        Err(TuyaError::CrcMismatch)
    ));
}

#[test]
fn hmac_mismatch_is_rejected() {
    let key = key16();
    let msg = msg_55aa(1, 0x0a, b"abc".to_vec());
    let mut frame = pack_message(&msg, Some(&key)).unwrap();
    let n = frame.len();
    frame[n - 5] ^= 0x01;
    assert!(matches!(
        unpack_message(&frame, Some(&key), None, Some(true)),
        Err(TuyaError::HmacMismatch)
    ));
    // The wrong key is also a mismatch, never a silent accept.
    let frame2 = pack_message(&msg, Some(&key)).unwrap();
    let other = b"FFFFFFFFFFFFFFFF".to_vec();
    assert!(matches!(
        unpack_message(&frame2, Some(&other), None, Some(true)),
        Err(TuyaError::HmacMismatch)
    ));
}

#[test]
fn payload_tamper_is_rejected() {
    let msg = msg_55aa(1, 0x0a, b"abcdef".to_vec());
    let mut frame = pack_message(&msg, None).unwrap();
    frame[17] ^= 0x20;
    assert!(matches!(
        unpack_message(&frame, None, None, Some(true)),
        Err(TuyaError::CrcMismatch)
    ));
}

#[test]
fn retcode_auto_detect_json_start() {
    // A frame whose payload begins with `{"` must keep its payload whole.
    let msg = msg_55aa(4, 0x08, b"{\"dps\":{\"1\":true}}".to_vec());
    let frame = pack_message(&msg, None).unwrap();
    let back = unpack_message(&frame, None, None, None).unwrap();
    assert_eq!(back.retcode, None);
    assert_eq!(back.payload, b"{\"dps\":{\"1\":true}}".to_vec());
}

#[test]
fn retcode_auto_detect_zero_code() {
    // The same plaintext behind four zero bytes: the detector consumes
    // them as retcode 0.
    let mut payload = vec![0u8, 0, 0, 0];
    payload.extend_from_slice(b"{\"dps\":{\"1\":true}}");
    let msg = msg_55aa(4, 0x08, payload);
    let frame = pack_message(&msg, None).unwrap();
    let back = unpack_message(&frame, None, None, None).unwrap();
    assert_eq!(back.retcode, Some(0));
    assert_eq!(back.payload, b"{\"dps\":{\"1\":true}}".to_vec());
}

#[test]
fn retcode_auto_detect_version_tag() {
    // A nonzero code followed by a version header ("3...") also counts.
    let mut payload = vec![0u8, 0, 0, 1];
    payload.extend_from_slice(b"3.3456789012345{\"x\":1}");
    let msg = msg_55aa(4, 0x08, payload);
    let frame = pack_message(&msg, None).unwrap();
    let back = unpack_message(&frame, None, None, None).unwrap();
    assert_eq!(back.retcode, Some(1));
}

#[test]
fn header_parse_errors() {
    assert!(matches!(parse_header(&[0u8; 10]), Err(TuyaError::DecodeError(_))));
    let bogus = [0xDEu8, 0xAD, 0xBE, 0xEF, 0, 0, 0, 0, 0, 0, 0, 0, 0, 0, 0, 0];
    assert!(matches!(parse_header(&bogus), Err(TuyaError::InvalidHeader)));
    // A 6699 prefix with only 16 bytes is too short for its 18-byte header.
    let short = [0x00u8, 0x00, 0x66, 0x99, 0, 0, 0, 0, 0, 0, 0, 0, 0, 0, 0, 0];
    assert!(matches!(parse_header(&short), Err(TuyaError::DecodeError(_))));
}

#[test]
fn unpack_data_shorter_than_length() {
    let msg = msg_55aa(1, 0x0a, b"abc".to_vec());
    let frame = pack_message(&msg, None).unwrap();
    assert!(matches!(
        unpack_message(&frame[..frame.len() - 1], None, None, Some(true)),
        Err(TuyaError::DecodeError(_))
    ));
}

#[test]
fn unknown_prefix_packs_to_nothing() {
    let msg = TuyaMessage {
        seqno: 0,
        cmd: 0,
        retcode: None,
        payload: b"x".to_vec(),
        prefix: 0x1234,
        iv: None,
    };
    assert_eq!(pack_message(&msg, None).unwrap(), Vec::<u8>::new());
}

#[test]
fn retcode_auto_detect_6699() {
    // The GCM format uses the same auto-detection on its plaintext.
    let key = key16();
    let mut payload = vec![0u8, 0, 0, 0];
    payload.extend_from_slice(b"{\"ok\":1}");
    let msg = TuyaMessage {
        seqno: 5,
        cmd: 0x08,
        retcode: None,
        payload,
        prefix: PREFIX_6699,
        iv: Some(vec![7u8; 12]),
    };
    let frame = pack_message(&msg, Some(&key)).unwrap();
    let back = unpack_message(&frame, Some(&key), None, None).unwrap();
    assert_eq!(back.retcode, Some(0));
    assert_eq!(back.payload, b"{\"ok\":1}".to_vec());
}

#[test]
fn unpack_6699_requires_key() {
    let key = key16();
    let msg = TuyaMessage {
        seqno: 5,
        cmd: 0x08,
        retcode: None,
        payload: b"{}".to_vec(),
        prefix: PREFIX_6699,
        iv: Some(vec![7u8; 12]),
    };
    let frame = pack_message(&msg, Some(&key)).unwrap();
    assert!(matches!(
        unpack_message(&frame, None, None, Some(true)),
        Err(TuyaError::EncryptionFailed)
    ));
    // The wrong key fails the GCM opening.
    let other = b"FFFFFFFFFFFFFFFF".to_vec();
    assert!(matches!(
        unpack_message(&frame, Some(&other), None, Some(true)),
        Err(TuyaError::DecryptionFailed)
    ));
}

#[test]
fn version_tags_and_values() {
    assert_eq!(Version::V3_3.tag_str(), "3.3");
    assert_eq!(Version::V3_5.tenths(), 35);
    assert_eq!(Version::Auto.tenths(), 0);
    assert_eq!(Version::from_tag_bytes(b"3.4"), Some(Version::V3_4));
    assert_eq!(Version::from_tag_bytes(b"9.9"), None);
}

#[test]
fn command_type_values_round_trip() {
    assert_eq!(CommandType::Control.value(), 0x07);
    assert_eq!(CommandType::UdpNew.value(), 0x13);
    assert_eq!(CommandType::from_u32(0x40), Some(CommandType::LanExtStream));
    assert_eq!(CommandType::from_u32(0x99), None);
    for v in [0x01u32, 0x07, 0x0a, 0x10, 0x13, 0x25, 0x40, 0xff] {
        let c = CommandType::from_u32(v).unwrap();
        assert_eq!(c.value(), v);
    }
}

#[test]
fn default_message_is_empty_55aa() {
    let m = TuyaMessage::default();
    assert_eq!(m.seqno, 0);
    assert_eq!(m.cmd, 0);
    assert!(m.retcode.is_none());
    assert!(m.payload.is_empty());
    assert_eq!(m.prefix, PREFIX_55AA);
    assert!(m.iv.is_none());
}

