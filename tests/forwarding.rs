use udcn::{classify, Action, Classification, ContentStore, Forwarder, PacketStats, Pit, TableFull};

const FACE: u32 = 1;

fn frame(ethertype: u16, protocol: u8, src: u16, dst: u16, payload: &[u8]) -> Vec<u8> {
    let mut f = vec![0u8; 12];
    f.extend_from_slice(&ethertype.to_be_bytes());
    let mut ip = vec![0u8; 20];
    ip[0] = 0x45;
    ip[9] = protocol;
    f.extend_from_slice(&ip);
    f.extend_from_slice(&src.to_be_bytes());
    f.extend_from_slice(&dst.to_be_bytes());
    f.extend_from_slice(&((8 + payload.len()) as u16).to_be_bytes());
    f.extend_from_slice(&[0, 0]);
    f.extend_from_slice(payload);
    f
}

fn interest_payload(name_hash: u32, nonce: u32) -> Vec<u8> {
    let mut p = vec![0x05, 12];
    p.extend_from_slice(&name_hash.to_le_bytes());
    p.extend_from_slice(&nonce.to_le_bytes());
    p.extend_from_slice(&[0, 0]);
    p
}

fn data_payload(name_hash: u32, content_size: u16, signature: u32, content: &[u8]) -> Vec<u8> {
    let mut p = vec![0x06, 12];
    p.extend_from_slice(&name_hash.to_le_bytes());
    p.extend_from_slice(&content_size.to_le_bytes());
    p.extend_from_slice(&signature.to_le_bytes());
    p.extend_from_slice(content);
    p
}

fn interest_frame(name_hash: u32, nonce: u32) -> Vec<u8> {
    frame(0x0800, 17, 40000, 6363, &interest_payload(name_hash, nonce))
}

fn data_frame(name_hash: u32, content_size: u16) -> Vec<u8> {
    let content = vec![b'x'; content_size as usize];
    frame(0x0800, 17, 6363, 40000, &data_payload(name_hash, content_size, 0x5151, &content))
}

fn zero() -> PacketStats {
    Forwarder::new().stats
}

#[test]
fn scenario_interest_creates_pit_entry() {
    let mut fw = Forwarder::new();
    let action = fw.process(&interest_frame(0xAABBCCDD, 0x11223344), FACE, 0);
    assert_eq!(action, Action::Pass);
    assert_eq!(fw.stats.interest_received, 1);
    assert_eq!(fw.stats.forwards, 1);
    assert_eq!(fw.stats.drops, 1);
    assert_eq!(fw.stats.pit_hits, 0);
    let e = fw.pit.get(0xAABBCCDD).unwrap();
    assert_eq!(e.name_hash, 0xAABBCCDD);
    assert_eq!(e.face_id, FACE);
    assert_eq!(fw.pit.len(), 1);
}

#[test]
fn scenario_data_satisfies_pit_entry() {
    let mut fw = Forwarder::new();
    fw.process(&interest_frame(0xAABBCCDD, 0x11223344), FACE, 0);
    let action = fw.process(&data_frame(0xAABBCCDD, 11), FACE, 5);
    assert_eq!(action, Action::Pass);
    assert_eq!(fw.stats.pit_hits, 1);
    assert_eq!(fw.stats.data_received, 1);
    assert_eq!(fw.stats.forwards, 2);
    assert_eq!(fw.stats.drops, 2);
    assert!(fw.pit.get(0xAABBCCDD).is_none());
    let c = fw.store.peek(0xAABBCCDD).unwrap();
    assert_eq!(c.data_size, 11);
    assert_eq!(c.timestamp, 5);
}

#[test]
fn scenario_non_ipv4_frame_passes() {
    let mut fw = Forwarder::new();
    let f = frame(0x0806, 17, 40000, 6363, &interest_payload(0xAABBCCDD, 1));
    assert_eq!(fw.process(&f, FACE, 0), Action::Pass);
    let mut expected = zero();
    expected.drops = 1;
    assert_eq!(fw.stats, expected);
    assert_eq!(fw.pit.len(), 0);
    assert_eq!(fw.store.len(), 0);
}

#[test]
fn truncated_frames_pass_without_table_changes() {
    let frames = [interest_frame(0x01020304, 9), data_frame(0x01020304, 4)];
    for full in frames.iter() {
        // headers end at 42; the NDN fields need 12 bytes more
        for cut in 0..54 {
            let mut fw = Forwarder::new();
            assert_eq!(fw.process(&full[..cut], FACE, 0), Action::Pass);
            assert_eq!(fw.pit.len(), 0);
            assert_eq!(fw.store.len(), 0);
        }
    }
    assert_eq!(classify(&interest_frame(1, 2)[..53]), Classification::ShortInterest);
    assert_eq!(classify(&data_frame(1, 0)[..52]), Classification::ShortData);
    assert_eq!(classify(&data_frame(1, 0)[..53]), Classification::ShortData);
    assert_eq!(classify(&interest_frame(1, 2)[..30]), Classification::Unchecked);
}

#[test]
fn classifier_reads_fields() {
    assert_eq!(
        classify(&interest_frame(0xAABBCCDD, 0x11223344)),
        Classification::Interest { name_hash: 0xAABBCCDD, nonce: 0x11223344 }
    );
    assert_eq!(
        classify(&data_frame(0xAABBCCDD, 3)),
        Classification::Data { name_hash: 0xAABBCCDD, content_size: 3, signature: 0x5151, payload_offset: 42 }
    );
    // a longer IPv4 header moves the UDP header
    let mut f = interest_frame(7, 8);
    f[14] = 0x46;
    f.splice(34..34, [0u8; 4]);
    assert_eq!(classify(&f), Classification::Interest { name_hash: 7, nonce: 8 });
}

#[test]
fn classifier_rejects_other_traffic() {
    assert_eq!(classify(&frame(0x0800, 6, 40000, 6363, &interest_payload(1, 2))), Classification::Unchecked);
    assert_eq!(classify(&frame(0x0800, 17, 40000, 53, &interest_payload(1, 2))), Classification::NotNdn);
    assert_eq!(classify(&frame(0x0800, 17, 40000, 6363, &[0x05])), Classification::NotNdn);
    assert_eq!(classify(&frame(0x0800, 17, 40000, 6363, &[0x09, 0, 0, 0])), Classification::NotNdn);
}

#[test]
fn other_port_counts_port_check_only() {
    let mut fw = Forwarder::new();
    let f = frame(0x0800, 17, 40000, 53, &interest_payload(1, 2));
    assert_eq!(fw.process(&f, FACE, 0), Action::Pass);
    let mut expected = zero();
    expected.drops = 1;
    expected.forwards = 1;
    assert_eq!(fw.stats, expected);
}

#[test]
fn short_interest_is_counted_and_passed() {
    let mut fw = Forwarder::new();
    let f = frame(0x0800, 17, 40000, 6363, &interest_payload(1, 2)[..10]);
    assert_eq!(fw.process(&f, FACE, 0), Action::Pass);
    assert_eq!(fw.stats.interest_received, 0);
    assert_eq!(fw.stats.drops, 1);
    assert_eq!(fw.stats.forwards, 1);
    assert_eq!(fw.pit.len(), 0);
}

#[test]
fn short_data_is_not_counted_and_passed() {
    let mut fw = Forwarder::new();
    fw.process(&interest_frame(1, 2), FACE, 0);
    let f = frame(0x0800, 17, 6363, 40000, &data_payload(1, 0, 0, &[])[..11]);
    assert_eq!(fw.process(&f, FACE, 0), Action::Pass);
    assert_eq!(fw.stats.data_received, 0);
    assert_eq!(fw.stats.pit_hits, 0);
    assert!(fw.pit.get(1).is_some());
}

#[test]
fn pit_round_trip_then_unsolicited_data_drops() {
    let mut fw = Forwarder::new();
    assert_eq!(fw.process(&interest_frame(42, 1), FACE, 0), Action::Pass);
    assert_eq!(fw.process(&data_frame(42, 2), FACE, 1), Action::Pass);
    assert_eq!(fw.stats.pit_hits, 1);
    assert!(fw.pit.get(42).is_none());
    assert_eq!(fw.process(&data_frame(42, 2), FACE, 2), Action::Drop);
    assert_eq!(fw.stats.pit_hits, 1);
    // entry count three times, one policy drop
    assert_eq!(fw.stats.drops, 4);
}

#[test]
fn full_pit_drops_new_interest() {
    let mut fw = Forwarder::new();
    for k in 0..1024u32 {
        assert_eq!(fw.handle_interest(k, FACE, 0), Action::Pass);
    }
    assert_eq!(fw.pit.len(), 1024);
    assert_eq!(fw.process(&interest_frame(5000, 1), FACE, 0), Action::Drop);
    assert_eq!(fw.stats.drops, 2);
    assert!(fw.pit.get(5000).is_none());
    // a known fingerprint still overwrites
    assert_eq!(fw.process(&interest_frame(7, 1), FACE, 9), Action::Pass);
    assert_eq!(fw.pit.get(7).unwrap().timestamp, 9);
}

#[test]
fn pit_insert_take_and_full_error() {
    let mut pit = Pit::new();
    assert_eq!(pit.insert(1, 3, 10), Ok(()));
    assert_eq!(pit.insert(1, 4, 11), Ok(()));
    assert_eq!(pit.len(), 1);
    assert_eq!(pit.get(1).unwrap().face_id, 4);
    for k in 2..=1024u32 {
        pit.insert(k, 0, 0).unwrap();
    }
    assert_eq!(pit.insert(2000, 0, 0), Err(TableFull));
    let e = pit.take_if_present(1).unwrap();
    assert_eq!((e.name_hash, e.face_id, e.timestamp), (1, 4, 11));
    assert!(pit.take_if_present(1).is_none());
    assert_eq!(pit.insert(2000, 0, 0), Ok(()));
}

#[test]
fn content_store_evicts_least_recently_used() {
    let mut cs = ContentStore::new();
    for k in 0..512u32 {
        cs.upsert(k, 1, k as u64);
    }
    assert_eq!(cs.len(), 512);
    cs.upsert(512, 1, 512);
    assert_eq!(cs.len(), 512);
    assert!(cs.peek(0).is_none());
    assert!(cs.peek(1).is_some());
    assert!(cs.peek(512).is_some());
}

#[test]
fn content_store_lookup_protects_entry() {
    let mut cs = ContentStore::new();
    for k in 0..512u32 {
        cs.upsert(k, 1, 0);
    }
    assert_eq!(cs.touch_lookup(0).unwrap().name_hash, 0);
    cs.upsert(512, 1, 0);
    assert!(cs.peek(0).is_some());
    assert!(cs.peek(1).is_none());
    assert!(cs.touch_lookup(1).is_none());
}

#[test]
fn content_store_upsert_refreshes() {
    let mut cs = ContentStore::new();
    cs.upsert(1, 10, 0);
    cs.upsert(2, 20, 0);
    cs.upsert(1, 30, 5);
    assert_eq!(cs.len(), 2);
    assert_eq!(cs.peek(1).unwrap().data_size, 30);
}

#[test]
fn cache_hit_without_payload_falls_through_to_pit() {
    let mut fw = Forwarder::new();
    fw.store.upsert(77, 3, 0);
    assert_eq!(fw.process(&interest_frame(77, 1), FACE, 0), Action::Pass);
    assert_eq!(fw.stats.cache_hits, 1);
    assert_eq!(fw.stats.cache_misses, 0);
    assert!(fw.pit.get(77).is_some());
}

#[test]
fn cache_hit_with_payload_replies() {
    let mut fw = Forwarder::new();
    fw.store.upsert(77, 3, 0);
    assert_eq!(fw.payloads.put(77, vec![1, 2, 3]), Ok(()));
    assert_eq!(fw.payloads.get(77).unwrap(), &vec![1, 2, 3]);
    assert_eq!(fw.process(&interest_frame(77, 1), FACE, 0), Action::Reply);
    assert_eq!(fw.stats.cache_hits, 1);
    assert_eq!(fw.pit.len(), 0);
}

#[test]
fn data_path_never_fills_payload_cache() {
    let mut fw = Forwarder::new();
    fw.process(&interest_frame(9, 1), FACE, 0);
    fw.process(&data_frame(9, 4), FACE, 0);
    assert!(fw.payloads.get(9).is_none());
    assert_eq!(fw.process(&interest_frame(9, 2), FACE, 0), Action::Pass);
}

#[test]
fn counters_never_decrease() {
    let mut fw = Forwarder::new();
    let frames = [
        interest_frame(1, 1),
        data_frame(1, 2),
        data_frame(1, 2),
        frame(0x0806, 0, 0, 0, &[]),
        vec![0u8; 3],
        interest_frame(2, 1),
        frame(0x0800, 17, 1, 2, &[5, 5]),
        data_frame(2, 0),
    ];
    let mut prev = fw.stats;
    for f in frames.iter() {
        fw.process(f, FACE, 0);
        let s = fw.stats;
        assert!(s.drops >= prev.drops && s.forwards >= prev.forwards);
        assert!(s.interest_received >= prev.interest_received && s.data_received >= prev.data_received);
        assert!(s.pit_hits >= prev.pit_hits && s.cache_hits >= prev.cache_hits);
        prev = s;
    }
}

#[test]
fn counters_saturate_at_maximum() {
    let mut fw = Forwarder::new();
    fw.stats.drops = u32::MAX;
    fw.process(&[0u8; 4], FACE, 0);
    assert_eq!(fw.stats.drops, u32::MAX);
}

#[test]
fn actions_map_to_xdp_codes() {
    assert_eq!(Action::Abort.xdp_code(), 0);
    assert_eq!(Action::Drop.xdp_code(), 1);
    assert_eq!(Action::Pass.xdp_code(), 2);
    assert_eq!(Action::Reply.xdp_code(), 3);
}

#[test]
fn hook_returns_xdp_codes() {
    let mut fw = Forwarder::new();
    assert_eq!(udcn::udcn(&mut fw, &interest_frame(3, 1), FACE, 0), 2);
    assert_eq!(udcn::udcn(&mut fw, &data_frame(4, 1), FACE, 0), 1);
    assert_eq!(udcn::udcn(&mut fw, &[], FACE, 0), 2);
    assert!(fw.pit.get(3).is_some());
}
