//! Decoder of GET frames (`.graw` files).
use vstd::prelude::*;

use crate::bytes::{be16, be24, be32, be48, read_be16, read_be24, read_be32, read_be48};
use crate::constants::{
    EXPECTED_FRAME_TYPE_FULL, EXPECTED_FRAME_TYPE_PARTIAL, EXPECTED_HEADER_SIZE,
    EXPECTED_ITEM_SIZE_FULL, EXPECTED_ITEM_SIZE_PARTIAL, EXPECTED_META_TYPE, HEADER_FIELDS_LEN,
    NUMBER_OF_AGETS, NUMBER_OF_CHANNELS, NUMBER_OF_TIME_BUCKETS, SIZE_UNIT,
};
use crate::error::{GrawDataError, GrawFrameError};

verus! {

/// Header of a GET frame. All fields are big-endian on disk, in this order.
#[derive(Debug, Clone, Copy, PartialEq, Eq, Structural)]
pub struct GrawFrameHeader {
    pub meta_type: u8,
    /// Size of the frame in 256-bit units (3 bytes).
    pub frame_size: u32,
    pub data_source: u8,
    pub frame_type: u16,
    pub revision: u8,
    /// Size of the header in 256-bit units.
    pub header_size: u16,
    /// Bytes per data item.
    pub item_size: u16,
    pub n_items: u32,
    /// Event time, 48 bits.
    pub event_time: u64,
    pub event_id: u32,
    pub cobo_id: u8,
    pub asad_id: u8,
    pub read_offset: u16,
    pub status: u8,
}

/// One sample of a channel.
#[derive(Debug, Clone, Copy, PartialEq, Eq, Structural)]
pub struct GrawData {
    pub aget_id: u8,
    pub channel: u8,
    pub time_bucket_id: u16,
    pub sample: i16,
}

/// A decoded frame: its header and its samples, all within range.
#[derive(Debug, Clone, PartialEq, Eq)]
pub struct GrawFrame {
    pub header: GrawFrameHeader,
    pub data: Vec<GrawData>,
}

/// The header fields at the start of `b`.
pub open spec fn header_fields(b: Seq<u8>) -> GrawFrameHeader {
    GrawFrameHeader {
        meta_type: b[0],
        frame_size: be24(b, 1) as u32,
        data_source: b[4],
        frame_type: be16(b, 5) as u16,
        revision: b[7],
        header_size: be16(b, 8) as u16,
        item_size: be16(b, 10) as u16,
        n_items: be32(b, 12) as u32,
        event_time: be48(b, 16) as u64,
        event_id: be32(b, 22) as u32,
        cobo_id: b[26],
        asad_id: b[27],
        read_offset: be16(b, 28) as u16,
        status: b[30],
    }
}

pub open spec fn expected_item_size(frame_type: u16) -> u16 {
    if frame_type == EXPECTED_FRAME_TYPE_FULL {
        EXPECTED_ITEM_SIZE_FULL
    } else {
        EXPECTED_ITEM_SIZE_PARTIAL
    }
}

/// Size in units a frame must have: header plus items, rounded up.
pub open spec fn expected_frame_size(h: GrawFrameHeader) -> int {
    (h.header_size * SIZE_UNIT + h.n_items * h.item_size + SIZE_UNIT - 1) / SIZE_UNIT as int
}

/// The header at the start of `b`, or why it is rejected; checks in this
/// order: meta type, frame type, header size, item size, frame size.
pub open spec fn header_spec(b: Seq<u8>) -> Result<GrawFrameHeader, GrawFrameError> {
    if b.len() < HEADER_FIELDS_LEN {
        Err(GrawFrameError::IOError)
    } else {
        let h = header_fields(b);
        if h.meta_type != EXPECTED_META_TYPE {
            Err(GrawFrameError::IncorrectMetaType(h.meta_type))
        } else if h.frame_type != EXPECTED_FRAME_TYPE_FULL && h.frame_type != EXPECTED_FRAME_TYPE_PARTIAL {
            Err(GrawFrameError::IncorrectFrameType(h.frame_type))
        } else if h.header_size != EXPECTED_HEADER_SIZE {
            Err(GrawFrameError::IncorrectHeaderSize(h.header_size))
        } else if h.item_size != expected_item_size(h.frame_type) {
            Err(GrawFrameError::IncorrectItemSize(h.item_size))
        } else if h.frame_size != expected_frame_size(h) {
            Err(GrawFrameError::IncorrectFrameSize(h.frame_size, expected_frame_size(h) as u32))
        } else {
            Ok(h)
        }
    }
}

/// The first range violation of a datum, checked in the order AGET,
/// channel, time bucket.
pub open spec fn datum_error(d: GrawData) -> Option<GrawDataError> {
    if d.aget_id >= NUMBER_OF_AGETS {
        Some(GrawDataError::BadAgetID(d.aget_id))
    } else if d.channel >= NUMBER_OF_CHANNELS {
        Some(GrawDataError::BadChannel(d.channel))
    } else if d.time_bucket_id >= NUMBER_OF_TIME_BUCKETS {
        Some(GrawDataError::BadTimeBucket(d.time_bucket_id))
    } else {
        None
    }
}

/// A full item: `aget:2 | channel:7 | time_bucket:9 | unused:2 | sample:12`.
pub open spec fn full_datum(w: u32) -> GrawData {
    GrawData {
        aget_id: (w >> 30u32) as u8,
        channel: ((w >> 23u32) & 0x7f) as u8,
        time_bucket_id: ((w >> 14u32) & 0x1ff) as u16,
        sample: (w & 0xfff) as i16,
    }
}

/// Items `i..n` of a full frame whose items start at `start`, after `acc`.
pub open spec fn full_data(b: Seq<u8>, start: int, i: nat, n: nat, acc: Seq<GrawData>) -> Result<
    Seq<GrawData>,
    GrawDataError,
>
    decreases n - i,
{
    if i >= n {
        Ok(acc)
    } else {
        let d = full_datum(be32(b, start + 4 * i) as u32);
        match datum_error(d) {
            Some(e) => Err(e),
            None => full_data(b, start, i + 1, n, acc.push(d)),
        }
    }
}

/// A partial item: `aget:2 | unused:2 | sample:12`. The k-th item of an AGET
/// (counting from 0) holds channel `k % 68` of time bucket `k / 68`;
/// `counts` holds how many items each AGET had before item `i`.
pub open spec fn partial_data(
    b: Seq<u8>,
    start: int,
    i: nat,
    n: nat,
    counts: Seq<nat>,
    acc: Seq<GrawData>,
) -> Result<Seq<GrawData>, GrawDataError>
    decreases n - i,
{
    if i >= n {
        Ok(acc)
    } else {
        let v = be16(b, start + 2 * i) as u16;
        let a = (v >> 14u16) as u8;
        let k = counts[a as int];
        let d = GrawData {
            aget_id: a,
            channel: (k % 68) as u8,
            time_bucket_id: (k / 68) as u16,
            sample: (v & 0xfff) as i16,
        };
        match datum_error(d) {
            Some(e) => Err(e),
            None => partial_data(b, start, i + 1, n, counts.update(a as int, k + 1), acc.push(d)),
        }
    }
}

/// A frame at the start of `b`: its header and its samples, or why it is
/// rejected.
pub open spec fn frame_spec(b: Seq<u8>) -> Result<(GrawFrameHeader, Seq<GrawData>), GrawFrameError> {
    match header_spec(b) {
        Err(e) => Err(e),
        Ok(h) => {
            let start = h.header_size * SIZE_UNIT;
            if start + h.n_items * h.item_size > b.len() {
                Err(GrawFrameError::IOError)
            } else {
                let data = if h.frame_type == EXPECTED_FRAME_TYPE_FULL {
                    full_data(b, start, 0, h.n_items as nat, seq![])
                } else {
                    partial_data(b, start, 0, h.n_items as nat, seq![0nat, 0nat, 0nat, 0nat], seq![])
                };
                match data {
                    Err(e) => Err(GrawFrameError::BadDatum(e)),
                    Ok(d) => Ok((h, d)),
                }
            }
        }
    }
}

/// Every datum is within range.
pub open spec fn data_in_range(d: Seq<GrawData>) -> bool {
    forall|j: int| 0 <= j < d.len() ==> datum_error(#[trigger] d[j]) is None
}

proof fn lemma_full_data_in_range(b: Seq<u8>, start: int, i: nat, n: nat, acc: Seq<GrawData>)
    requires
        data_in_range(acc),
    ensures
        full_data(b, start, i, n, acc) matches Ok(s) ==> data_in_range(s),
    decreases n - i,
{
    if i < n {
        let d = full_datum(be32(b, start + 4 * i) as u32);
        if datum_error(d) is None {
            assert(data_in_range(acc.push(d)));
            lemma_full_data_in_range(b, start, i + 1, n, acc.push(d));
        }
    }
}

proof fn lemma_partial_data_in_range(
    b: Seq<u8>,
    start: int,
    i: nat,
    n: nat,
    counts: Seq<nat>,
    acc: Seq<GrawData>,
)
    requires
        data_in_range(acc),
    ensures
        partial_data(b, start, i, n, counts, acc) matches Ok(s) ==> data_in_range(s),
    decreases n - i,
{
    if i < n {
        let v = be16(b, start + 2 * i) as u16;
        let a = (v >> 14u16) as u8;
        let k = counts[a as int];
        let d = GrawData {
            aget_id: a,
            channel: (k % 68) as u8,
            time_bucket_id: (k / 68) as u16,
            sample: (v & 0xfff) as i16,
        };
        if datum_error(d) is None {
            assert(data_in_range(acc.push(d)));
            lemma_partial_data_in_range(b, start, i + 1, n, counts.update(a as int, k + 1), acc.push(d));
        }
    }
}

/// Bytes a frame of `frame_size` units occupies on disk.
pub open spec fn frame_bytes(frame_size: u32) -> int {
    frame_size * SIZE_UNIT
}

impl GrawFrameHeader {
    /// Decodes and checks the header at the start of `b` (see `header_spec`).
    pub fn from_bytes(b: &Vec<u8>) -> (r: Result<GrawFrameHeader, GrawFrameError>)
        ensures
            r == header_spec(b@),
    {
        if b.len() < HEADER_FIELDS_LEN {
            return Err(GrawFrameError::IOError);
        }
        let h = GrawFrameHeader {
            meta_type: b[0],
            frame_size: read_be24(b, 1),
            data_source: b[4],
            frame_type: read_be16(b, 5),
            revision: b[7],
            header_size: read_be16(b, 8),
            item_size: read_be16(b, 10),
            n_items: read_be32(b, 12),
            event_time: read_be48(b, 16),
            event_id: read_be32(b, 22),
            cobo_id: b[26],
            asad_id: b[27],
            read_offset: read_be16(b, 28),
            status: b[30],
        };
        assert(h == header_fields(b@));
        if h.meta_type != EXPECTED_META_TYPE {
            return Err(GrawFrameError::IncorrectMetaType(h.meta_type));
        }
        if h.frame_type != EXPECTED_FRAME_TYPE_FULL && h.frame_type != EXPECTED_FRAME_TYPE_PARTIAL {
            return Err(GrawFrameError::IncorrectFrameType(h.frame_type));
        }
        if h.header_size != EXPECTED_HEADER_SIZE {
            return Err(GrawFrameError::IncorrectHeaderSize(h.header_size));
        }
        let item_size = if h.frame_type == EXPECTED_FRAME_TYPE_FULL {
            EXPECTED_ITEM_SIZE_FULL
        } else {
            EXPECTED_ITEM_SIZE_PARTIAL
        };
        if h.item_size != item_size {
            return Err(GrawFrameError::IncorrectItemSize(h.item_size));
        }
        let items_bytes: u64 = if h.frame_type == EXPECTED_FRAME_TYPE_FULL {
            (h.n_items as u64) * 4
        } else {
            (h.n_items as u64) * 2
        };
        assert(items_bytes == h.n_items * h.item_size);
        assert(items_bytes <= 0x4_0000_0000);
        let header_bytes: u64 = (EXPECTED_HEADER_SIZE as u64) * 32;
        let total: u64 = header_bytes + items_bytes;
        let expected: u64 = (total + 31) / 32;
        assert(expected == expected_frame_size(h));
        if h.frame_size as u64 != expected {
            return Err(GrawFrameError::IncorrectFrameSize(h.frame_size, expected as u32));
        }
        Ok(h)
    }

    /// Bytes the frame occupies on disk: `frame_size * 256 / 8`.
    pub fn frame_size_bytes(&self) -> (r: u64)
        ensures
            r == frame_bytes(self.frame_size),
    {
        (self.frame_size as u64) * 32
    }
}

/// Bytes on disk of the frame that starts with `prefix`, read from its
/// `frame_size` field; `None` when fewer than four bytes are given.
pub fn frame_size_of(prefix: &Vec<u8>) -> (r: Option<u64>)
    ensures
        r is Some <==> prefix@.len() >= 4,
        r matches Some(n) ==> n == frame_bytes(be24(prefix@, 1) as u32),
{
    if prefix.len() < 4 {
        return None;
    }
    Some((read_be24(prefix, 1) as u64) * 32)
}

fn check_datum(d: GrawData) -> (r: Option<GrawDataError>)
    ensures
        r == datum_error(d),
{
    if d.aget_id >= NUMBER_OF_AGETS {
        Some(GrawDataError::BadAgetID(d.aget_id))
    } else if d.channel >= NUMBER_OF_CHANNELS {
        Some(GrawDataError::BadChannel(d.channel))
    } else if d.time_bucket_id >= NUMBER_OF_TIME_BUCKETS {
        Some(GrawDataError::BadTimeBucket(d.time_bucket_id))
    } else {
        None
    }
}

fn decode_full(b: &Vec<u8>, start: usize, n: usize) -> (r: Result<Vec<GrawData>, GrawDataError>)
    requires
        start + 4 * n <= b.len(),
    ensures
        match full_data(b@, start as int, 0, n as nat, seq![]) {
            Ok(s) => r matches Ok(v) && v@ == s,
            Err(e) => r == Err::<Vec<GrawData>, GrawDataError>(e),
        },
{
    let mut out: Vec<GrawData> = Vec::new();
    let mut i: usize = 0;
    while i < n
        invariant
            start + 4 * n <= b.len(),
            i <= n,
            full_data(b@, start as int, 0, n as nat, seq![]) == full_data(b@, start as int, i as nat, n as nat, out@),
        decreases n - i,
    {
        let w = read_be32(b, start + 4 * i);
        assert((w >> 30u32) <= 3) by (bit_vector);
        assert(((w >> 23u32) & 0x7f) <= 0x7f) by (bit_vector);
        assert(((w >> 14u32) & 0x1ff) <= 0x1ff) by (bit_vector);
        assert((w & 0xfff) <= 0xfff) by (bit_vector);
        let d = GrawData {
            aget_id: (w >> 30u32) as u8,
            channel: ((w >> 23u32) & 0x7f) as u8,
            time_bucket_id: ((w >> 14u32) & 0x1ff) as u16,
            sample: (w & 0xfff) as i16,
        };
        assert(d == full_datum(w));
        match check_datum(d) {
            Some(e) => {
                return Err(e);
            },
            None => {},
        }
        out.push(d);
        i = i + 1;
    }
    Ok(out)
}

fn decode_partial(b: &Vec<u8>, start: usize, n: usize) -> (r: Result<Vec<GrawData>, GrawDataError>)
    requires
        start + 2 * n <= b.len(),
    ensures
        match partial_data(b@, start as int, 0, n as nat, seq![0nat, 0nat, 0nat, 0nat], seq![]) {
            Ok(s) => r matches Ok(v) && v@ == s,
            Err(e) => r == Err::<Vec<GrawData>, GrawDataError>(e),
        },
{
    let mut out: Vec<GrawData> = Vec::new();
    let mut counts: Vec<u32> = vec![0u32, 0u32, 0u32, 0u32];
    let ghost want = partial_data(b@, start as int, 0, n as nat, seq![0nat, 0nat, 0nat, 0nat], seq![]);
    assert(counts@.map_values(|c: u32| c as nat) =~= seq![0nat, 0nat, 0nat, 0nat]);
    let mut i: usize = 0;
    while i < n
        invariant
            start + 2 * n <= b.len(),
            i <= n,
            counts@.len() == 4,
            forall|a: int| 0 <= a < 4 ==> #[trigger] counts@[a] <= 512 * 68,
            want == partial_data(b@, start as int, 0, n as nat, seq![0nat, 0nat, 0nat, 0nat], seq![]),
            want == partial_data(
                b@,
                start as int,
                i as nat,
                n as nat,
                counts@.map_values(|c: u32| c as nat),
                out@,
            ),
        decreases n - i,
    {
        let v = read_be16(b, start + 2 * i);
        assert((v >> 14u16) <= 3) by (bit_vector);
        assert((v & 0xfff) <= 0xfff) by (bit_vector);
        let a = (v >> 14u16) as usize;
        let k = counts[a];
        assert(k / 68 <= 512) by (nonlinear_arith)
            requires
                k <= 512 * 68,
        ;
        let d = GrawData {
            aget_id: a as u8,
            channel: (k % 68) as u8,
            time_bucket_id: (k / 68) as u16,
            sample: (v & 0xfff) as i16,
        };
        match check_datum(d) {
            Some(e) => {
                return Err(e);
            },
            None => {},
        }
        assert(k / 68 < 512);
        assert(k < 512 * 68) by (nonlinear_arith)
            requires
                k / 68 < 512,
        ;
        let ghost old_counts = counts@;
        counts.set(a, k + 1);
        assert(counts@.map_values(|c: u32| c as nat) =~= old_counts.map_values(|c: u32| c as nat).update(
            a as int,
            (k + 1) as nat,
        ));
        out.push(d);
        i = i + 1;
    }
    Ok(out)
}

impl GrawFrame {
    /// Decodes a whole frame from `b` (see `frame_spec`): the header is
    /// checked, then each item is decoded and checked in order.
    pub fn from_bytes(b: &Vec<u8>) -> (r: Result<GrawFrame, GrawFrameError>)
        ensures
            match frame_spec(b@) {
                Ok((h, d)) => r matches Ok(f) && f.header == h && f.data@ == d,
                Err(e) => r == Err::<GrawFrame, GrawFrameError>(e),
            },
            r matches Ok(f) ==> data_in_range(f.data@),
    {
        proof {
            let h = header_fields(b@);
            let start = h.header_size * SIZE_UNIT;
            lemma_full_data_in_range(b@, start, 0, h.n_items as nat, seq![]);
            lemma_partial_data_in_range(b@, start, 0, h.n_items as nat, seq![0nat, 0nat, 0nat, 0nat], seq![]);
        }
        let header = match GrawFrameHeader::from_bytes(b) {
            Ok(h) => h,
            Err(e) => {
                return Err(e);
            },
        };
        let start: usize = (header.header_size as usize) * 32;
        let n = header.n_items as usize;
        let items_bytes: u64 = if header.frame_type == EXPECTED_FRAME_TYPE_FULL {
            (n as u64) * 4
        } else {
            (n as u64) * 2
        };
        assert(items_bytes == header.n_items * header.item_size);
        if (b.len() as u64) < (start as u64) + items_bytes {
            return Err(GrawFrameError::IOError);
        }
        let decoded = if header.frame_type == EXPECTED_FRAME_TYPE_FULL {
            decode_full(b, start, n)
        } else {
            decode_partial(b, start, n)
        };
        match decoded {
            Ok(data) => Ok(GrawFrame { header, data }),
            Err(e) => Err(GrawFrameError::BadDatum(e)),
        }
    }
}

} // verus!
