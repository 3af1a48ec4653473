use attpc_merger::channel_map::GetChannelMap;
use attpc_merger::error::{EventBuilderError, EventError, GrawDataError, GrawFrameError};
use attpc_merger::event::Event;
use attpc_merger::event_builder::EventBuilder;
use attpc_merger::graw_frame::{frame_size_of, GrawData, GrawFrame, GrawFrameHeader};
use attpc_merger::merger::Merger;

/// Bytes of a frame: a 256-byte header, then the items.
fn frame_bytes(frame_type: u16, item_size: u16, event_id: u32, cobo: u8, asad: u8, event_time: u64, items: &[u8]) -> Vec<u8> {
    let n_items = (items.len() / item_size as usize) as u32;
    let total = 256 + items.len();
    let frame_size = ((total + 31) / 32) as u32;
    let mut b = vec![0u8; 256];
    b[0] = 6;
    b[1..4].copy_from_slice(&frame_size.to_be_bytes()[1..4]);
    b[5..7].copy_from_slice(&frame_type.to_be_bytes());
    b[8..10].copy_from_slice(&8u16.to_be_bytes());
    b[10..12].copy_from_slice(&item_size.to_be_bytes());
    b[12..16].copy_from_slice(&n_items.to_be_bytes());
    b[16..22].copy_from_slice(&event_time.to_be_bytes()[2..8]);
    b[22..26].copy_from_slice(&event_id.to_be_bytes());
    b[26] = cobo;
    b[27] = asad;
    b.extend_from_slice(items);
    b
}

fn full_item(aget: u32, channel: u32, bucket: u32, amp: u32) -> [u8; 4] {
    ((aget << 30) | (channel << 23) | (bucket << 14) | amp).to_be_bytes()
}

fn full_frame(event_id: u32, cobo: u8, samples: &[(u32, u32, u32, u32)]) -> Vec<u8> {
    let mut items = Vec::new();
    for (a, c, t, s) in samples {
        items.extend(full_item(*a, *c, *t, *s));
    }
    frame_bytes(1, 4, event_id, cobo, 0, 1000 + event_id as u64, &items)
}

fn map_for(rows: &str) -> GetChannelMap {
    let rows: String = rows.lines().map(|l| format!("{l},-\n")).collect();
    GetChannelMap::from_csv(&format!("cobo,asad,aget,channel,kw,ch,extra\n{rows}")).unwrap()
}

fn simple_frame(event_id: u32) -> GrawFrame {
    GrawFrame {
        header: GrawFrameHeader {
            meta_type: 6,
            frame_size: 9,
            data_source: 0,
            frame_type: 1,
            revision: 0,
            header_size: 8,
            item_size: 4,
            n_items: 1,
            event_time: 77,
            event_id,
            cobo_id: 0,
            asad_id: 0,
            read_offset: 0,
            status: 0,
        },
        data: vec![GrawData { aget_id: 1, channel: 10, time_bucket_id: 5, sample: 0x123 }],
    }
}

#[test]
fn single_full_frame_to_pad_matrix() {
    let raw = full_frame(42, 0, &[(1, 10, 5, 0x123)]);
    assert_eq!(frame_size_of(&raw), Some(9 * 32));
    let frame = GrawFrame::from_bytes(&raw).unwrap();
    assert_eq!(frame.header.event_id, 42);
    assert_eq!(frame.header.frame_size, 9);
    assert_eq!(frame.header.frame_size_bytes(), 288);
    assert_eq!(frame.data, vec![GrawData { aget_id: 1, channel: 10, time_bucket_id: 5, sample: 0x123 }]);
    let mut evb = EventBuilder::new(map_for("0,0,1,10,pad,321\n"));
    assert!(evb.append_frame(frame).unwrap().is_none());
    let event = evb.flush_final_event().unwrap();
    assert_eq!(event.event_id, 42);
    let m = event.convert_to_data_matrices();
    assert_eq!(m.pads.len(), 1);
    assert_eq!(m.pads[0].len(), 517);
    assert_eq!(&m.pads[0][0..5], &[0, 0, 1, 10, 321]);
    assert_eq!(m.pads[0][10], 0x123);
    assert_eq!(m.pads[0].iter().filter(|v| **v != 0).count(), 4);
    assert!(m.si_upstream_front.is_empty());
}

#[test]
fn frame_header_errors() {
    let good = full_frame(1, 0, &[(0, 0, 0, 1)]);
    let mut b = good.clone();
    b[0] = 5;
    assert_eq!(GrawFrame::from_bytes(&b), Err(GrawFrameError::IncorrectMetaType(5)));
    let mut b = good.clone();
    b[6] = 3;
    assert_eq!(GrawFrame::from_bytes(&b), Err(GrawFrameError::IncorrectFrameType(3)));
    let mut b = good.clone();
    b[9] = 1;
    assert_eq!(GrawFrame::from_bytes(&b), Err(GrawFrameError::IncorrectHeaderSize(1)));
    let mut b = good.clone();
    b[11] = 2;
    assert_eq!(GrawFrame::from_bytes(&b), Err(GrawFrameError::IncorrectItemSize(2)));
    let mut b = good.clone();
    b[3] = 20;
    assert_eq!(GrawFrame::from_bytes(&b), Err(GrawFrameError::IncorrectFrameSize(20, 9)));
    let mut b = good.clone();
    b.pop();
    assert_eq!(GrawFrame::from_bytes(&b), Err(GrawFrameError::IOError));
    assert_eq!(GrawFrame::from_bytes(&vec![6u8; 30]), Err(GrawFrameError::IOError));
    assert_eq!(frame_size_of(&vec![6u8, 0, 0]), None);
}

#[test]
fn frame_bad_channel() {
    let raw = full_frame(1, 0, &[(0, 1, 0, 1), (0, 70, 3, 1)]);
    assert_eq!(GrawFrame::from_bytes(&raw), Err(GrawFrameError::BadDatum(GrawDataError::BadChannel(70))));
}

#[test]
fn partial_frame_counts_per_aget() {
    // two items of AGET 0, one of AGET 2
    let mut items = Vec::new();
    items.extend(0x0005u16.to_be_bytes());
    items.extend(0x8007u16.to_be_bytes());
    items.extend(0x0fffu16.to_be_bytes());
    let raw = frame_bytes(2, 2, 3, 1, 2, 0, &items);
    let frame = GrawFrame::from_bytes(&raw).unwrap();
    assert_eq!(
        frame.data,
        vec![
            GrawData { aget_id: 0, channel: 0, time_bucket_id: 0, sample: 5 },
            GrawData { aget_id: 2, channel: 0, time_bucket_id: 0, sample: 7 },
            GrawData { aget_id: 0, channel: 1, time_bucket_id: 0, sample: 0xfff },
        ]
    );
}

#[test]
fn partial_frame_too_many_buckets() {
    let items = vec![0u8; 2 * 68 * 512 + 2];
    let raw = frame_bytes(2, 2, 3, 1, 2, 0, &items);
    assert_eq!(GrawFrame::from_bytes(&raw), Err(GrawFrameError::BadDatum(GrawDataError::BadTimeBucket(512))));
}

#[test]
fn event_drops_fpn_and_unmapped_channels() {
    let map = map_for("0,0,0,11,pad,1\n0,0,0,12,pad,2\n");
    let mut f = simple_frame(4);
    f.data = vec![
        GrawData { aget_id: 0, channel: 11, time_bucket_id: 0, sample: 9 },
        GrawData { aget_id: 0, channel: 12, time_bucket_id: 3, sample: 8 },
        GrawData { aget_id: 0, channel: 12, time_bucket_id: 3, sample: 6 },
        GrawData { aget_id: 0, channel: 13, time_bucket_id: 0, sample: 7 },
    ];
    let event = Event::new(&map, &vec![f]).unwrap();
    let m = event.convert_to_data_matrices();
    assert_eq!(m.pads.len(), 1);
    assert_eq!(m.pads[0][4], 2);
    assert_eq!(m.pads[0][5 + 3], 6);
}

#[test]
fn event_timestamps_by_cobo() {
    let map = map_for("0,0,1,10,pad,1\n");
    let mut a = simple_frame(4);
    a.header.event_time = 111;
    let mut b = simple_frame(4);
    b.header.cobo_id = 10;
    b.header.event_time = 222;
    let event = Event::new(&map, &vec![a, b]).unwrap();
    assert_eq!(event.timestamp, 111);
    assert_eq!(event.timestampother, 222);
    assert_eq!(event.nframes, 2);
}

#[test]
fn event_mismatched_ids() {
    let map = map_for("0,0,1,10,pad,1\n");
    let r = Event::new(&map, &vec![simple_frame(4), simple_frame(4), simple_frame(5)]);
    assert!(matches!(r, Err(EventError::MismatchedEventID(5, 4))));
}

#[test]
fn silicon_rows_go_to_their_matrix() {
    let map = map_for("0,0,1,10,si_downstream_back,7\n");
    let event = Event::new(&map, &vec![simple_frame(1)]).unwrap();
    let m = event.convert_to_data_matrices();
    assert!(m.pads.is_empty());
    assert_eq!(m.si_downstream_back.len(), 1);
    assert_eq!(m.si_downstream_back[0][4], 7);
}

/// Runs the merge loop over in-memory streams of event ids.
fn merge(streams: &[Vec<u32>]) -> Vec<u32> {
    let mut pos = vec![0usize; streams.len()];
    let mut m = Merger::new();
    for (i, s) in streams.iter().enumerate() {
        if let Some(id) = s.first() {
            m.push(*id, i);
        }
    }
    let mut out = Vec::new();
    while let Some((id, i)) = m.pop_next() {
        out.push(id);
        pos[i] += 1;
        if let Some(next) = streams[i].get(pos[i]) {
            m.push(*next, i);
        }
    }
    out
}

#[test]
fn two_stream_merge() {
    let ids = merge(&[vec![1, 2, 4], vec![1, 3, 3, 5]]);
    assert_eq!(ids, vec![1, 1, 2, 3, 3, 4, 5]);
    let map = map_for("0,0,1,10,pad,1\n");
    let mut evb = EventBuilder::new(map);
    let mut events = Vec::new();
    for id in ids {
        if let Some(e) = evb.append_frame(simple_frame(id)).unwrap() {
            events.push(e.event_id);
        }
    }
    if let Some(e) = evb.flush_final_event() {
        events.push(e.event_id);
    }
    assert_eq!(events, vec![1, 2, 3, 4, 5]);
}

#[test]
fn merger_empty_and_len() {
    let mut m = Merger::new();
    assert!(m.is_empty());
    assert_eq!(m.pop_next(), None);
    m.push(9, 0);
    m.push(2, 1);
    assert_eq!(m.len(), 2);
    assert_eq!(m.pop_next(), Some((2, 1)));
}

#[test]
fn out_of_order_frame() {
    let mut evb = EventBuilder::new(map_for("0,0,1,10,pad,1\n"));
    assert!(evb.append_frame(simple_frame(3)).unwrap().is_none());
    assert!(matches!(evb.append_frame(simple_frame(2)), Err(EventBuilderError::EventOutOfOrder(2, 3))));
}

#[test]
fn flush_without_frames() {
    let mut evb = EventBuilder::new(GetChannelMap::new());
    assert!(evb.flush_final_event().is_none());
}
