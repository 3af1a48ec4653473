use attpc_merger::error::EvtItemError;
use attpc_merger::frib_builder::{FribAction, FribBuilder};
use attpc_merger::ring_item::{
    ring_item_size,
    BeginRunItem, CounterItem, EndRunItem, PhysicsItem, RingItem, RingType, RunInfo, SIS3300Item,
    SIS3316Item, ScalersItem, V977Item,
};

fn le16(v: u16) -> Vec<u8> {
    v.to_le_bytes().to_vec()
}

fn le32(v: u32) -> Vec<u8> {
    v.to_le_bytes().to_vec()
}

/// A raw record without body header: size, type, then 4 bytes of padding.
fn raw_item(ring_type: u8, payload: &[u8]) -> Vec<u8> {
    let mut b = Vec::new();
    b.extend(le32((12 + payload.len()) as u32));
    b.extend([ring_type, 0, 0, 0]);
    b.extend(le32(0));
    b.extend_from_slice(payload);
    b
}

fn ring(ring_type: RingType, bytes: Vec<u8>) -> RingItem {
    RingItem { size: bytes.len() + 12, bytes, ring_type }
}

#[test]
fn ring_type_from_byte() {
    assert_eq!(RingType::from(1u8), RingType::BeginRun);
    assert_eq!(RingType::from(2u8), RingType::EndRun);
    assert_eq!(RingType::from(12u8), RingType::Dummy);
    assert_eq!(RingType::from(20u8), RingType::Scalers);
    assert_eq!(RingType::from(30u8), RingType::Physics);
    assert_eq!(RingType::from(31u8), RingType::Counter);
    assert_eq!(RingType::from(99u8), RingType::Invalid);
}

#[test]
fn ring_item_without_body_header() {
    let raw = raw_item(30, &[9, 8, 7]);
    let item = RingItem::from_buffer(raw).unwrap();
    assert_eq!(item.size, 15);
    assert_eq!(item.bytes, vec![9, 8, 7]);
    assert_eq!(item.ring_type, RingType::Physics);
}

#[test]
fn ring_item_with_body_header() {
    let mut raw = vec![0u8; 28];
    raw[4] = 1;
    raw[8] = 20;
    raw.extend([5, 6]);
    let item = RingItem::from_buffer(raw).unwrap();
    assert_eq!(item.bytes, vec![5, 6]);
    assert_eq!(item.ring_type, RingType::BeginRun);
    assert_eq!(item.size, 30);
}

#[test]
fn ring_item_too_short() {
    assert_eq!(RingItem::from_buffer(vec![0u8; 11]), Err(EvtItemError::ItemSizeError));
    assert_eq!(RingItem::from_buffer(vec![]), Err(EvtItemError::ItemSizeError));
}

#[test]
fn ring_item_new_is_empty() {
    let item = RingItem::new();
    assert_eq!(item.size, 0);
    assert!(item.bytes.is_empty());
    assert_eq!(item.ring_type, RingType::Invalid);
}

#[test]
fn remove_boundaries_single_chunk_keeps_samples() {
    let mut r = ring(RingType::Physics, vec![3, 0, 1, 2, 3, 4, 5, 6]);
    r.remove_boundaries();
    assert_eq!(r.bytes, vec![1, 2, 3, 4, 5, 6]);
}

#[test]
fn remove_boundaries_two_chunks() {
    // first chunk of one word, then a tag for a chunk of two words
    let mut r = ring(RingType::Physics, vec![1, 0xf0, 0xaa, 0xbb, 2, 0, 1, 2, 3, 4]);
    r.remove_boundaries();
    assert_eq!(r.bytes, vec![0xaa, 0xbb, 1, 2, 3, 4]);
}

#[test]
fn remove_boundaries_empty_and_odd_byte() {
    let mut r = ring(RingType::Physics, vec![]);
    r.remove_boundaries();
    assert!(r.bytes.is_empty());
    let mut r = ring(RingType::Physics, vec![1, 0, 7, 7, 9]);
    r.remove_boundaries();
    assert_eq!(r.bytes, vec![7, 7, 9]);
}

#[test]
fn begin_run_decodes_title_up_to_nul() {
    let mut p = Vec::new();
    p.extend(le32(7));
    p.extend(le32(0));
    p.extend(le32(1000));
    p.extend(le32(0));
    p.extend(b"t\0\0\0");
    let item = BeginRunItem::decode(&ring(RingType::BeginRun, p)).unwrap();
    assert_eq!(item.run, 7);
    assert_eq!(item.start, 1000);
    assert_eq!(item.title, "t");
}

#[test]
fn begin_run_errors() {
    assert_eq!(BeginRunItem::decode(&ring(RingType::BeginRun, vec![0; 11])), Err(EvtItemError::IOError));
    let mut p = vec![0u8; 16];
    p.extend([0xff, 0xfe]);
    assert_eq!(BeginRunItem::decode(&ring(RingType::BeginRun, p)), Err(EvtItemError::IOError));
    let short = BeginRunItem::decode(&ring(RingType::BeginRun, vec![0; 12])).unwrap();
    assert_eq!(short.title, "");
}

#[test]
fn end_run_decodes() {
    let mut p = le32(1100);
    p.extend(le32(100));
    let item = EndRunItem::decode(&ring(RingType::EndRun, p)).unwrap();
    assert_eq!(item, EndRunItem { stop: 1100, time: 100 });
    assert_eq!(EndRunItem::decode(&ring(RingType::EndRun, vec![0; 7])), Err(EvtItemError::IOError));
}

fn scaler_payload(data: &[u32]) -> Vec<u8> {
    let mut p = Vec::new();
    p.extend(le32(1));
    p.extend(le32(2));
    p.extend(le32(3));
    p.extend(le32(0));
    p.extend(le32(data.len() as u32));
    p.extend(le32(1));
    for d in data {
        p.extend(le32(*d));
    }
    p
}

#[test]
fn scalers_decode() {
    let item = ScalersItem::decode(&ring(RingType::Scalers, scaler_payload(&[1, 2, 3, 4]))).unwrap();
    assert_eq!(item.data, vec![1, 2, 3, 4]);
    assert_eq!(item.start_offset, 1);
    assert_eq!(item.stop_offset, 2);
    assert_eq!(item.timestamp, 3);
    assert_eq!(item.incremental, 1);
    let mut short = scaler_payload(&[1, 2, 3, 4]);
    short.pop();
    assert_eq!(ScalersItem::decode(&ring(RingType::Scalers, short)), Err(EvtItemError::IOError));
}

#[test]
fn counter_decode() {
    let mut p = vec![0u8; 12];
    p.extend(0x0102_0304_0506_0708u64.to_le_bytes());
    assert_eq!(CounterItem::decode(&ring(RingType::Counter, p)).unwrap().count, 0x0102_0304_0506_0708);
    assert_eq!(CounterItem::decode(&ring(RingType::Counter, vec![0; 19])), Err(EvtItemError::IOError));
}

#[test]
fn run_info_strings() {
    let mut info = RunInfo::new();
    info.begin.run = 42;
    info.begin.title = String::from("calib");
    info.end.time = 360;
    assert_eq!(info.print_begin(), "Run Number: 42 Title: calib");
    assert_eq!(info.print_end(), "Run Number: 42 Elapsed Time: 360s");
}

fn physics_header(event: u32, ts: u32) -> Vec<u8> {
    let mut p = le32(event);
    p.extend(le32(ts));
    p
}

#[test]
fn physics_v977_only() {
    let mut p = physics_header(0, 50);
    p.extend(le16(0x0977));
    p.extend(le16(0xbeef));
    let item = PhysicsItem::decode(&ring(RingType::Physics, p)).unwrap();
    assert_eq!(item.event, 0);
    assert_eq!(item.timestamp, 50);
    assert_eq!(item.coinc.coinc, 0xbeef);
    assert!(!item.fadc1.hasdata);
    assert!(!item.fadc4.hasdata);
}

#[test]
fn physics_unknown_tag_ends_modules() {
    let mut p = physics_header(3, 4);
    p.extend(le16(0x1234));
    p.extend(le16(0x0977));
    p.extend(le16(0xbeef));
    let item = PhysicsItem::decode(&ring(RingType::Physics, p)).unwrap();
    assert_eq!(item.coinc.coinc, 0);
}

#[test]
fn physics_truncated_fails() {
    let mut p = physics_header(3, 4);
    p.extend(le16(0x0977));
    p.push(1);
    assert_eq!(PhysicsItem::decode(&ring(RingType::Physics, p)), Err(EvtItemError::IOError));
    assert_eq!(PhysicsItem::decode(&ring(RingType::Physics, vec![0; 7])), Err(EvtItemError::IOError));
}

/// One enabled SIS3300 group (group 0) of `n` sample pairs.
fn sis3300_group0(trigger: u32, pairs: &[(u16, u16)], trailer: u16) -> Vec<u8> {
    let mut p = le16(0x1903);
    p.extend(le16(0x0001));
    p.extend(le32(0));
    p.extend(le16(0xfadc));
    p.extend(le32(trigger));
    p.extend(le32(pairs.len() as u32));
    for (a, b) in pairs {
        p.extend(le16(*a));
        p.extend(le16(*b));
    }
    p.extend(le16(trailer));
    p
}

#[test]
fn sis3300_sequential_read() {
    let mut p = physics_header(1, 2);
    p.extend(sis3300_group0(0, &[(0x1001, 0x2002), (0x3003, 0x4004), (5, 6)], 0xffff));
    let item = PhysicsItem::decode(&ring(RingType::Physics, p)).unwrap();
    let f = &item.fadc1;
    assert!(f.hasdata);
    assert_eq!(f.samples, 3);
    assert_eq!(f.channels, 8);
    assert_eq!(f.traces[1], vec![0x001, 0x003, 5]);
    assert_eq!(f.traces[0], vec![0x002, 0x004, 6]);
    // disabled groups hold zero traces of the last sample count
    assert_eq!(f.traces[2], vec![0, 0, 0]);
    assert_eq!(f.traces[7], vec![0, 0, 0]);
}

#[test]
fn sis3300_wrapped_buffer() {
    // wrap bit set, write pointer 0: the oldest pair is pair 1
    let mut p = physics_header(1, 2);
    p.extend(sis3300_group0(0x80000, &[(10, 20), (11, 21), (12, 22)], 0xffff));
    let item = PhysicsItem::decode(&ring(RingType::Physics, p)).unwrap();
    assert_eq!(item.fadc1.traces[1], vec![11, 12, 10]);
    assert_eq!(item.fadc1.traces[0], vec![21, 22, 20]);
}

#[test]
fn sis3300_bad_header_and_trailer() {
    let mut p = physics_header(1, 2);
    let mut g = sis3300_group0(0, &[(1, 2)], 0xffff);
    g[8] = 0;
    g[9] = 0;
    p.extend(g);
    let item = PhysicsItem::decode(&ring(RingType::Physics, p)).unwrap();
    assert!(!item.fadc1.hasdata);
    assert_eq!(item.fadc1.channels, 2);

    let mut p = physics_header(1, 2);
    p.extend(sis3300_group0(0, &[(1, 2)], 0x1234));
    let item = PhysicsItem::decode(&ring(RingType::Physics, p)).unwrap();
    assert!(!item.fadc1.hasdata);
    assert_eq!(item.fadc1.traces[1], vec![1]);
}

#[test]
fn sis3316_records() {
    let mut p = physics_header(1, 2);
    p.extend(le16(0x1906));
    // channel 3, two samples (one half-sample count)
    p.extend(le16(3 << 4));
    p.extend(le32(0));
    p.extend(le16(0));
    p.extend(le16(1));
    p.extend(le16(0));
    p.extend(le16(100));
    p.extend(le16(200));
    // channel 5, two samples
    p.extend(le16(5 << 4));
    p.extend(le32(0));
    p.extend(le16(0));
    p.extend(le16(1));
    p.extend(le16(0));
    p.extend(le16(300));
    p.extend(le16(400));
    p.extend(le16(0xffff));
    let item = PhysicsItem::decode(&ring(RingType::Physics, p)).unwrap();
    let f = &item.fadc4;
    assert!(f.hasdata);
    assert_eq!(f.channels, 2);
    assert_eq!(f.samples, 2);
    assert_eq!(f.traces[3], vec![3, 100, 200]);
    assert_eq!(f.traces[5], vec![5, 300, 400]);
    assert!(f.valid[3] && f.valid[5] && !f.valid[0]);
}

#[test]
fn module_items_start_empty() {
    let s = SIS3300Item::new();
    assert_eq!(s.traces.len(), 8);
    assert_eq!((s.samples, s.channels, s.hasdata), (0, 0, false));
    let t = SIS3316Item::new();
    assert_eq!(t.traces.len(), 16);
    assert_eq!(t.valid, vec![false; 16]);
    assert_eq!(V977Item::new().coinc, 0);
    let p = PhysicsItem::new();
    assert_eq!((p.event, p.timestamp), (0, 0));
}

#[test]
fn decoding_twice_gives_equal_items() {
    let mut p = physics_header(9, 10);
    p.extend(sis3300_group0(0x80001, &[(1, 2), (3, 4), (5, 6), (7, 8)], 0xffff));
    p.extend(le16(0x0977));
    p.extend(le16(0x0101));
    let r = ring(RingType::Physics, p);
    assert_eq!(PhysicsItem::decode(&r), PhysicsItem::decode(&r));
    let s = ring(RingType::Scalers, scaler_payload(&[5, 6]));
    assert_eq!(ScalersItem::decode(&s), ScalersItem::decode(&s));
}

#[test]
fn frib_end_to_end() {
    let mut fb = FribBuilder::new();
    let mut begin = le32(7);
    begin.extend(le32(0));
    begin.extend(le32(1000));
    begin.extend(le32(0));
    begin.extend(b"t\0");
    let items = vec![
        raw_item(1, &begin),
        raw_item(20, &scaler_payload(&[1, 2, 3, 4])),
        {
            let mut p = vec![12, 0];
            p.extend(physics_header(0, 50));
            p.extend(le16(0x0977));
            p.extend(le16(0xbeef));
            raw_item(30, &p)
        },
        {
            let mut p = le32(1100);
            p.extend(le32(100));
            raw_item(2, &p)
        },
    ];
    let mut scalers = Vec::new();
    let mut physics = Vec::new();
    let mut ended = false;
    for raw in items {
        match fb.process_ring(RingItem::from_buffer(raw).unwrap()).unwrap() {
            FribAction::Scalers(s, c) => scalers.push((s, c)),
            FribAction::Physics(p, c) => physics.push((p, c)),
            FribAction::EndRun => {
                ended = true;
                break;
            }
            _ => {}
        }
    }
    assert!(ended);
    assert_eq!(fb.run_info.begin.run, 7);
    assert_eq!(fb.run_info.begin.start, 1000);
    assert_eq!(fb.run_info.end.stop, 1100);
    assert_eq!(fb.run_info.end.time, 100);
    assert_eq!(scalers.len(), 1);
    assert_eq!(scalers[0].1, 0);
    assert_eq!(scalers[0].0.data, vec![1, 2, 3, 4]);
    assert_eq!(physics.len(), 1);
    assert_eq!(physics[0].1, 0);
    assert_eq!(physics[0].0.coinc.coinc, 0xbeef);
    assert_eq!(physics[0].0.timestamp, 50);
}

#[test]
fn frib_skips_and_flags_unknown() {
    let mut fb = FribBuilder::new();
    let dummy = RingItem::from_buffer(raw_item(12, &[])).unwrap();
    assert!(matches!(fb.process_ring(dummy), Ok(FribAction::Skip)));
    let odd = RingItem::from_buffer(raw_item(77, &[])).unwrap();
    assert!(matches!(fb.process_ring(odd), Ok(FribAction::Unrecognized)));
    let bad = RingItem::from_buffer(raw_item(20, &[1, 2])).unwrap();
    assert!(matches!(fb.process_ring(bad), Err(EvtItemError::IOError)));
    assert_eq!(fb.scaler_counter, 0);
}

#[test]
fn ring_size_prefix() {
    assert_eq!(ring_item_size(&vec![0x10, 0x01, 0, 0, 9]), Some(0x110));
    assert_eq!(ring_item_size(&vec![1, 2, 3]), None);
}
