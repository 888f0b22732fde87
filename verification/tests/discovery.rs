use rustuya::protocol::{pack_message, TuyaMessage, Version, PREFIX_55AA, PREFIX_6699};
use rustuya::scanner::{
    build_discovery_probe, parse_packet, udp_key_33, udp_key_34, DiscoveryCache, DiscoveryResult,
    ScanDecision, ScanState,
};

fn broadcast_json() -> Vec<u8> {
    b"{\"gwId\":\"abc\",\"ip\":\"10.0.0.2\",\"version\":\"3.3\"}".to_vec()
}

#[test]
fn parse_raw_json_datagram() {
    let r = parse_packet(&broadcast_json(), 100).unwrap();
    assert_eq!(r.id, b"abc".to_vec());
    assert_eq!(r.ip, b"10.0.0.2".to_vec());
    assert_eq!(r.version, Some(Version::V3_3));
    assert_eq!(r.product_key, None);
    assert_eq!(r.discovered_at, 100);
}

#[test]
fn parse_55aa_crc_frame_with_plain_json() {
    // A 0x55AA frame, cmd 0x13, CRC-correct, carrying plaintext JSON.
    let msg = TuyaMessage {
        seqno: 0,
        cmd: 0x13,
        retcode: None,
        payload: broadcast_json(),
        prefix: PREFIX_55AA,
        iv: None,
    };
    let frame = pack_message(&msg, None).unwrap();
    let r = parse_packet(&frame, 7).unwrap();
    assert_eq!(r.id, b"abc".to_vec());
    assert_eq!(r.ip, b"10.0.0.2".to_vec());
    assert_eq!(r.version, Some(Version::V3_3));
    assert_eq!(r.product_key, None);
}

#[test]
fn parse_6699_gcm_frame_port_7000() {
    // A 0x6699 frame under the 3.5 discovery key, as port 7000 carries.
    let msg = TuyaMessage {
        seqno: 0,
        cmd: 0x25,
        retcode: None,
        payload: broadcast_json(),
        prefix: PREFIX_6699,
        iv: Some(vec![2u8; 12]),
    };
    let key = udp_key_34();
    let frame = pack_message(&msg, Some(&key)).unwrap();
    let r = parse_packet(&frame, 8).unwrap();
    assert_eq!(r.id, b"abc".to_vec());
    assert_eq!(r.ip, b"10.0.0.2".to_vec());
    assert_eq!(r.version, Some(Version::V3_3));
}

#[test]
fn parse_55aa_frame_with_ecb_payload() {
    // A 3.3-style broadcast: the frame's payload is itself ECB-encrypted
    // under the 3.3 discovery key.
    let key = udp_key_33();
    let cipher = rustuya::crypto::TuyaCipher::new(&key).unwrap();
    let encrypted = cipher.encrypt(&broadcast_json(), false, None, None, true).unwrap();
    let msg = TuyaMessage {
        seqno: 0,
        cmd: 0x13,
        retcode: None,
        payload: encrypted,
        prefix: PREFIX_55AA,
        iv: None,
    };
    let frame = pack_message(&msg, None).unwrap();
    let r = parse_packet(&frame, 9).unwrap();
    assert_eq!(r.id, b"abc".to_vec());
}

#[test]
fn parse_whole_packet_ecb_fallback() {
    // Some firmwares ECB-encrypt the entire datagram.
    let key = udp_key_33();
    let cipher = rustuya::crypto::TuyaCipher::new(&key).unwrap();
    let packet = cipher.encrypt(&broadcast_json(), false, None, None, true).unwrap();
    let r = parse_packet(&packet, 10).unwrap();
    assert_eq!(r.id, b"abc".to_vec());
    assert_eq!(r.ip, b"10.0.0.2".to_vec());
}

#[test]
fn parse_brace_fallback() {
    let mut packet = b"noise-bytes".to_vec();
    packet.extend_from_slice(&broadcast_json());
    let r = parse_packet(&packet, 11).unwrap();
    assert_eq!(r.id, b"abc".to_vec());
}

#[test]
fn parse_garbage_yields_nothing() {
    assert!(parse_packet(&[0xFFu8; 40], 0).is_none());
    assert!(parse_packet(b"{\"ip\":\"10.0.0.2\"}", 0).is_none());
    assert!(parse_packet(b"{\"gwId\":\"abc\"}", 0).is_none());
}

#[test]
fn parse_prefers_devid_then_id() {
    let r = parse_packet(b"{\"devId\":\"d1\",\"ip\":\"1.2.3.4\"}", 0).unwrap();
    assert_eq!(r.id, b"d1".to_vec());
    let r2 = parse_packet(b"{\"id\":\"i1\",\"ip\":\"1.2.3.4\"}", 0).unwrap();
    assert_eq!(r2.id, b"i1".to_vec());
    let r3 =
        parse_packet(b"{\"gwId\":\"g1\",\"devId\":\"d1\",\"ip\":\"1.2.3.4\"}", 0).unwrap();
    assert_eq!(r3.id, b"g1".to_vec());
}

#[test]
fn parse_reads_product_key() {
    let r = parse_packet(
        b"{\"gwId\":\"abc\",\"ip\":\"10.0.0.2\",\"productKey\":\"keyxyz\"}",
        0,
    )
    .unwrap();
    assert_eq!(r.product_key, Some(b"keyxyz".to_vec()));
    assert_eq!(r.version, None);
}

fn entry(id: &[u8], at: u64) -> DiscoveryResult {
    DiscoveryResult {
        id: id.to_vec(),
        ip: b"10.0.0.9".to_vec(),
        version: Some(Version::V3_3),
        product_key: None,
        discovered_at: at,
    }
}

#[test]
fn cache_fresh_entry_satisfies_lookup() {
    let mut cache = DiscoveryCache::new();
    cache.insert(entry(b"dev1", 1000));
    let hit = cache.lookup(b"dev1", 1000 + 1799).unwrap();
    assert_eq!(hit.id, b"dev1".to_vec());
    assert!(cache.lookup(b"dev2", 1000).is_none());
}

#[test]
fn cache_stale_entry_misses_lookup() {
    // An entry older than 30 minutes satisfies no lookup, so the caller
    // rescans and refreshes it.
    let mut cache = DiscoveryCache::new();
    cache.insert(entry(b"dev1", 1000));
    assert!(cache.lookup(b"dev1", 1000 + 1800).is_none());
    // The age-agnostic lookup (used under the scan cooldown) still sees it.
    assert!(cache.lookup_any(b"dev1").is_some());
    // A rescan refreshes the entry in place.
    cache.insert(entry(b"dev1", 5000));
    let hit = cache.lookup(b"dev1", 5100).unwrap();
    assert_eq!(hit.discovered_at, 5000);
}

#[test]
fn cache_invalidate_forces_scan() {
    let mut cache = DiscoveryCache::new();
    cache.insert(entry(b"dev1", 1000));
    cache.insert(entry(b"dev2", 1000));
    assert!(cache.invalidate(b"dev1"));
    assert!(!cache.invalidate(b"dev1"));
    assert!(cache.lookup(b"dev1", 1001).is_none());
    assert!(cache.lookup_any(b"dev1").is_none());
    // Other devices are untouched.
    assert!(cache.lookup(b"dev2", 1001).is_some());
}

#[test]
fn cache_holds_one_entry_per_id() {
    let mut cache = DiscoveryCache::new();
    cache.insert(entry(b"dev1", 1));
    cache.insert(entry(b"dev1", 2));
    cache.insert(entry(b"dev1", 3));
    assert_eq!(cache.all().len(), 1);
    assert_eq!(cache.lookup(b"dev1", 3).unwrap().discovered_at, 3);
}

#[test]
fn single_flight_scan_claim() {
    let mut s = ScanState::new();
    assert_eq!(s.try_begin(50), ScanDecision::Start);
    // While the claim stands, every further claim waits.
    assert_eq!(s.try_begin(51), ScanDecision::Wait);
    assert_eq!(s.try_begin(52), ScanDecision::Wait);
    s.finish();
    assert_eq!(s.try_begin(60), ScanDecision::Start);
}

#[test]
fn scan_cooldown_throttles() {
    let mut s = ScanState::new();
    assert!(!s.cooldown_active(0));
    let _ = s.try_begin(100);
    s.finish();
    assert!(s.cooldown_active(100 + 299));
    assert!(!s.cooldown_active(100 + 300));
}

#[test]
fn discovery_probe_55aa() {
    let probe = build_discovery_probe(6666, b"192.168.1.5").unwrap();
    // A UdpNew frame with a CRC footer whose payload is the empty query.
    let back = rustuya::protocol::unpack_message(&probe, None, None, Some(true)).unwrap();
    assert_eq!(back.cmd, 0x13);
    assert_eq!(back.payload, b"{\"gwId\":\"\",\"devId\":\"\"}".to_vec());
}

#[test]
fn discovery_probe_7000() {
    let probe = build_discovery_probe(7000, b"192.168.1.5").unwrap();
    let key = udp_key_34();
    let back = rustuya::protocol::unpack_message(&probe, Some(&key), None, Some(true)).unwrap();
    assert_eq!(back.cmd, 0x25);
    assert_eq!(back.payload, b"{\"from\":\"app\",\"ip\":\"192.168.1.5\"}".to_vec());
}
