//! FRIBDAQ ring items: the raw framed record and the typed items decoded from
//! its payload.
use vstd::prelude::*;
use vstd::utf8::{decode_utf8, valid_utf8};

use crate::bytes::{copy_range, extend_from_range, le16, le32, le64, read_le16, read_le32, read_le64};
use crate::error::EvtItemError;
use crate::text::{decimal, push_decimal, string_from_utf8};

verus! {

// Values of the type byte of a ring item.
pub const BEGIN_RUN_VAL: u8 = 1;
pub const END_RUN_VAL: u8 = 2;
pub const DUMMY_VAL: u8 = 12;
pub const SCALERS_VAL: u8 = 20;
pub const PHYSICS_VAL: u8 = 30;
pub const COUNTER_VAL: u8 = 31;

/// Value of the byte at `RING_HEADER_FLAG_INDEX` when a body header is present.
pub const RING_HEADER_PRESENT: u8 = 20;
pub const RING_HEADER_FLAG_INDEX: usize = 8;
/// Start of the payload when a body header is present.
pub const HEADER_PRESENT_INDEX: usize = 28;
/// Start of the payload without a body header.
pub const NO_HEADER_INDEX: usize = 12;
/// Index of the type byte.
pub const RING_TYPE_INDEX: usize = 4;

/// The kind of data a ring item carries.
#[derive(Debug, Clone, Copy, PartialEq, Eq)]
pub enum RingType {
    BeginRun,
    EndRun,
    Dummy,
    Scalers,
    Physics,
    Counter,
    Invalid,
}

pub open spec fn ring_type_of(value: u8) -> RingType {
    if value == BEGIN_RUN_VAL {
        RingType::BeginRun
    } else if value == END_RUN_VAL {
        RingType::EndRun
    } else if value == DUMMY_VAL {
        RingType::Dummy
    } else if value == SCALERS_VAL {
        RingType::Scalers
    } else if value == PHYSICS_VAL {
        RingType::Physics
    } else if value == COUNTER_VAL {
        RingType::Counter
    } else {
        RingType::Invalid
    }
}

impl From<u8> for RingType {
    fn from(value: u8) -> RingType {
        if value == BEGIN_RUN_VAL {
            RingType::BeginRun
        } else if value == END_RUN_VAL {
            RingType::EndRun
        } else if value == DUMMY_VAL {
            RingType::Dummy
        } else if value == SCALERS_VAL {
            RingType::Scalers
        } else if value == PHYSICS_VAL {
            RingType::Physics
        } else if value == COUNTER_VAL {
            RingType::Counter
        } else {
            RingType::Invalid
        }
    }
}

impl vstd::std_specs::convert::FromSpecImpl<u8> for RingType {
    open spec fn obeys_from_spec() -> bool {
        true
    }

    open spec fn from_spec(v: u8) -> RingType {
        ring_type_of(v)
    }
}

/// A raw ring item: the length of the whole record, the payload that follows
/// its header (and body header, if any), and its type.
#[derive(Debug, Clone, PartialEq, Eq)]
pub struct RingItem {
    pub size: usize,
    pub bytes: Vec<u8>,
    pub ring_type: RingType,
}

/// Where the payload of a raw record of at least `NO_HEADER_INDEX` bytes starts.
pub open spec fn payload_start(b: Seq<u8>) -> int {
    if b[RING_HEADER_FLAG_INDEX as int] == RING_HEADER_PRESENT && b.len() >= HEADER_PRESENT_INDEX {
        HEADER_PRESENT_INDEX as int
    } else {
        NO_HEADER_INDEX as int
    }
}

/// The VME buffer-boundary tags removed from a payload: at each boundary a
/// little-endian word whose low 12 bits give the length, in 16-bit words, of
/// the chunk that follows. A single byte left after the last chunk is kept.
pub open spec fn strip_boundaries(b: Seq<u8>) -> Seq<u8>
    decreases b.len(),
{
    if b.len() < 2 {
        b
    } else {
        let w = (le16(b, 0) % 0x1000) * 2;
        let rest = b.subrange(2, b.len() as int);
        if w >= rest.len() {
            rest
        } else {
            rest.subrange(0, w) + strip_boundaries(rest.subrange(w, rest.len() as int))
        }
    }
}

impl Default for RingItem {
    fn default() -> (r: Self)
        ensures
            r.size == 0,
            r.bytes@.len() == 0,
            r.ring_type == RingType::Invalid,
    {
        RingItem { size: 0, bytes: Vec::new(), ring_type: RingType::Invalid }
    }
}

impl RingItem {
    /// An empty item of type `Invalid`.
    pub fn new() -> (r: Self)
        ensures
            r.size == 0,
            r.bytes@.len() == 0,
            r.ring_type == RingType::Invalid,
    {
        RingItem { size: 0, bytes: Vec::new(), ring_type: RingType::Invalid }
    }

    /// Splits a raw record into type and payload. The type is the byte at
    /// offset 4; a byte equal to 20 at offset 8 marks a body header, and then
    /// the payload starts at 28, else at 12.
    pub fn from_buffer(buffer: Vec<u8>) -> (r: Result<RingItem, EvtItemError>)
        ensures
            r is Ok <==> buffer@.len() >= NO_HEADER_INDEX,
            r matches Ok(item) ==> {
                &&& item.size == buffer@.len()
                &&& item.bytes@ == buffer@.subrange(payload_start(buffer@), buffer@.len() as int)
                &&& item.ring_type == ring_type_of(buffer@[RING_TYPE_INDEX as int])
            },
            r matches Err(e) ==> e == EvtItemError::ItemSizeError,
    {
        let n = buffer.len();
        if n < NO_HEADER_INDEX {
            return Err(EvtItemError::ItemSizeError);
        }
        let start = if buffer[RING_HEADER_FLAG_INDEX] == RING_HEADER_PRESENT && n >= HEADER_PRESENT_INDEX {
            HEADER_PRESENT_INDEX
        } else {
            NO_HEADER_INDEX
        };
        let bytes = copy_range(&buffer, start, n);
        let ring_type = RingType::from(buffer[RING_TYPE_INDEX]);
        Ok(RingItem { size: n, bytes, ring_type })
    }

    /// Removes VME-USB buffer boundaries from the payload (see
    /// `strip_boundaries`). Meant for physics items only.
    pub fn remove_boundaries(&mut self)
        ensures
            final(self).bytes@ == strip_boundaries(old(self).bytes@),
            final(self).size == old(self).size,
            final(self).ring_type == old(self).ring_type,
    {
        let ghost b = self.bytes@;
        let n = self.bytes.len();
        let mut out: Vec<u8> = Vec::new();
        let mut ind: usize = 0;
        assert(b.subrange(0, n as int) =~= b);
        assert(out@ + b =~= b);
        while ind < n
            invariant
                self.bytes@ == b,
                n == b.len(),
                ind <= n,
                strip_boundaries(b) == out@ + strip_boundaries(b.subrange(ind as int, n as int)),
            decreases n - ind,
        {
            let ghost cur = b.subrange(ind as int, n as int);
            if n - ind < 2 {
                extend_from_range(&mut out, &self.bytes, ind, n);
                ind = n;
            } else {
                let w = ((read_le16(&self.bytes, ind) % 0x1000) as usize) * 2;
                assert(le16(cur, 0) == le16(b, ind as int));
                let start = ind + 2;
                let ghost rest = cur.subrange(2, cur.len() as int);
                assert(rest =~= b.subrange(start as int, n as int));
                if w >= n - start {
                    extend_from_range(&mut out, &self.bytes, start, n);
                    ind = n;
                } else {
                    extend_from_range(&mut out, &self.bytes, start, start + w);
                    assert(rest.subrange(0, w as int) =~= b.subrange(start as int, (start + w) as int));
                    assert(rest.subrange(w as int, rest.len() as int) =~= b.subrange((start + w) as int, n as int));
                    ind = start + w;
                }
            }
            assert(strip_boundaries(b) =~= out@ + strip_boundaries(b.subrange(ind as int, n as int)));
        }
        assert(b.subrange(n as int, n as int) =~= Seq::<u8>::empty());
        self.bytes = out;
    }
}

/// Length of the ring item that starts with `prefix`: its first
/// little-endian u32, which counts the whole item; `None` when fewer than
/// four bytes are given.
pub fn ring_item_size(prefix: &Vec<u8>) -> (r: Option<u32>)
    ensures
        r is Some <==> prefix@.len() >= 4,
        r matches Some(n) ==> n == le32(prefix@, 0),
{
    if prefix.len() < 4 {
        return None;
    }
    Some(read_le32(prefix, 0))
}

/// Index of the first NUL byte of `b` from `i` on, or the length of `b`.
pub open spec fn title_end(b: Seq<u8>, i: int) -> int
    decreases b.len() - i,
{
    if i >= b.len() {
        b.len() as int
    } else if b[i] == 0 {
        i
    } else {
        title_end(b, i + 1)
    }
}

pub open spec fn title_start(b: Seq<u8>) -> int {
    if b.len() < 16 {
        b.len() as int
    } else {
        16
    }
}

/// Payload bytes of the title of a begin-run item: from offset 16 (or the
/// end) up to the first NUL byte or the end.
pub open spec fn title_bytes(b: Seq<u8>) -> Seq<u8> {
    b.subrange(title_start(b), title_end(b, title_start(b)))
}

pub open spec fn begin_ok(b: Seq<u8>) -> bool {
    b.len() >= 12 && valid_utf8(title_bytes(b))
}

pub open spec fn begin_matches(b: Seq<u8>, item: BeginRunItem) -> bool {
    &&& item.run == le32(b, 0)
    &&& item.start == le32(b, 8)
    &&& item.title@ == decode_utf8(title_bytes(b))
}

/// Begin-of-run record: run number, start time and title.
#[derive(Debug, Clone, Default, PartialEq, Eq)]
pub struct BeginRunItem {
    pub run: u32,
    pub start: u32,
    pub title: String,
}

impl BeginRunItem {
    pub fn new() -> (r: Self)
        ensures
            r.run == 0,
            r.start == 0,
            r.title@.len() == 0,
    {
        BeginRunItem { run: 0, start: 0, title: String::new() }
    }

    /// Payload: `run:u32, _:u32, start:u32, _:u32, title`, little-endian, the
    /// title ending at the first NUL byte. Fails when the payload is shorter
    /// than 12 bytes or the title is not UTF-8.
    pub fn decode(ring: &RingItem) -> (r: Result<BeginRunItem, EvtItemError>)
        ensures
            r is Ok <==> begin_ok(ring.bytes@),
            r matches Ok(item) ==> begin_matches(ring.bytes@, item),
            r matches Err(e) ==> e == EvtItemError::IOError,
    {
        let b = &ring.bytes;
        let n = b.len();
        if n < 12 {
            return Err(EvtItemError::IOError);
        }
        let run = read_le32(b, 0);
        let start = read_le32(b, 8);
        let t0: usize = if n < 16 { n } else { 16 };
        let mut t1: usize = t0;
        while t1 < n && b[t1] != 0
            invariant
                n == b@.len(),
                t0 == title_start(b@),
                t0 <= t1 <= n,
                title_end(b@, t1 as int) == title_end(b@, t0 as int),
            decreases n - t1,
        {
            t1 = t1 + 1;
        }
        let title_raw = copy_range(b, t0, t1);
        match string_from_utf8(title_raw) {
            Some(title) => Ok(BeginRunItem { run, start, title }),
            None => Err(EvtItemError::IOError),
        }
    }
}

pub open spec fn end_matches(b: Seq<u8>, item: EndRunItem) -> bool {
    item.stop == le32(b, 0) && item.time == le32(b, 4)
}

/// End-of-run record: stop time and elapsed time.
#[derive(Debug, Clone, Copy, Default, PartialEq, Eq)]
pub struct EndRunItem {
    pub stop: u32,
    pub time: u32,
}

impl EndRunItem {
    pub fn new() -> (r: Self)
        ensures
            r.stop == 0,
            r.time == 0,
    {
        EndRunItem { stop: 0, time: 0 }
    }

    /// Payload: `stop:u32, time:u32`, little-endian.
    pub fn decode(ring: &RingItem) -> (r: Result<EndRunItem, EvtItemError>)
        ensures
            r is Ok <==> ring.bytes@.len() >= 8,
            r matches Ok(item) ==> end_matches(ring.bytes@, item),
            r matches Err(e) ==> e == EvtItemError::IOError,
    {
        if ring.bytes.len() < 8 {
            return Err(EvtItemError::IOError);
        }
        Ok(EndRunItem { stop: read_le32(&ring.bytes, 0), time: read_le32(&ring.bytes, 4) })
    }
}

/// Begin and end records of a run, kept together for the output file.
#[derive(Debug, Clone, Default, PartialEq, Eq)]
pub struct RunInfo {
    pub begin: BeginRunItem,
    pub end: EndRunItem,
}

impl RunInfo {
    pub fn new() -> (r: Self)
        ensures
            r.begin.run == 0,
            r.begin.start == 0,
            r.begin.title@.len() == 0,
            r.end.stop == 0,
            r.end.time == 0,
    {
        RunInfo { begin: BeginRunItem::new(), end: EndRunItem::new() }
    }

    /// "Run Number: {run} Title: {title}"
    pub fn print_begin(&self) -> (r: String)
        ensures
            r@ == "Run Number: "@ + decimal(self.begin.run as nat) + " Title: "@ + self.begin.title@,
    {
        let mut s = String::from_str("Run Number: ");
        push_decimal(&mut s, self.begin.run as u64);
        s.append(" Title: ");
        s.append(self.begin.title.as_str());
        s
    }

    /// "Run Number: {run} Elapsed Time: {time}s"
    pub fn print_end(&self) -> (r: String)
        ensures
            r@ == "Run Number: "@ + decimal(self.begin.run as nat) + " Elapsed Time: "@ + decimal(
                self.end.time as nat,
            ) + "s"@,
    {
        let mut s = String::from_str("Run Number: ");
        push_decimal(&mut s, self.begin.run as u64);
        s.append(" Elapsed Time: ");
        push_decimal(&mut s, self.end.time as u64);
        s.append("s");
        s
    }
}

pub open spec fn scalers_ok(b: Seq<u8>) -> bool {
    b.len() >= 24 && b.len() - 24 >= 4 * le32(b, 16)
}

pub open spec fn scalers_matches(b: Seq<u8>, item: ScalersItem) -> bool {
    &&& item.start_offset == le32(b, 0)
    &&& item.stop_offset == le32(b, 4)
    &&& item.timestamp == le32(b, 8)
    &&& item.incremental == le32(b, 20)
    &&& item.data@.len() == le32(b, 16)
    &&& forall|i: int| 0 <= i < item.data@.len() ==> item.data@[i] == le32(b, 24 + 4 * i)
}

/// Scaler record: timing header and one 32-bit counter per scaler.
#[derive(Debug, Clone, Default, PartialEq, Eq)]
pub struct ScalersItem {
    pub start_offset: u32,
    pub stop_offset: u32,
    pub timestamp: u32,
    pub incremental: u32,
    pub data: Vec<u32>,
}

impl ScalersItem {
    pub fn new() -> (r: Self)
        ensures
            r.start_offset == 0,
            r.stop_offset == 0,
            r.timestamp == 0,
            r.incremental == 0,
            r.data@.len() == 0,
    {
        ScalersItem { start_offset: 0, stop_offset: 0, timestamp: 0, incremental: 0, data: Vec::new() }
    }

    /// Payload: `start_offset, stop_offset, timestamp, _, count, incremental`,
    /// then `count` values, all little-endian u32.
    pub fn decode(ring: &RingItem) -> (r: Result<ScalersItem, EvtItemError>)
        ensures
            r is Ok <==> scalers_ok(ring.bytes@),
            r matches Ok(item) ==> scalers_matches(ring.bytes@, item),
            r matches Err(e) ==> e == EvtItemError::IOError,
    {
        let b = &ring.bytes;
        let n = b.len();
        if n < 24 {
            return Err(EvtItemError::IOError);
        }
        let count = read_le32(b, 16) as usize;
        if (n - 24) / 4 < count {
            return Err(EvtItemError::IOError);
        }
        let mut data: Vec<u32> = Vec::new();
        let mut i: usize = 0;
        while i < count
            invariant
                n == b@.len(),
                count == le32(b@, 16),
                24 + 4 * count <= n,
                i <= count,
                data@.len() == i,
                forall|j: int| 0 <= j < i ==> data@[j] == le32(b@, 24 + 4 * j),
            decreases count - i,
        {
            data.push(read_le32(b, 24 + 4 * i));
            i = i + 1;
        }
        Ok(ScalersItem {
            start_offset: read_le32(b, 0),
            stop_offset: read_le32(b, 4),
            timestamp: read_le32(b, 8),
            incremental: read_le32(b, 20),
            data,
        })
    }
}

/// Count of physics items seen by FRIBDAQ.
#[derive(Debug, Clone, Copy, Default, PartialEq, Eq)]
pub struct CounterItem {
    pub count: u64,
}

impl CounterItem {
    pub fn new() -> (r: Self)
        ensures
            r.count == 0,
    {
        CounterItem { count: 0 }
    }

    /// The count is the little-endian u64 at payload offset 12.
    pub fn decode(ring: &RingItem) -> (r: Result<CounterItem, EvtItemError>)
        ensures
            r is Ok <==> ring.bytes@.len() >= 20,
            r matches Ok(item) ==> item.count == le64(ring.bytes@, 12),
            r matches Err(e) ==> e == EvtItemError::IOError,
    {
        if ring.bytes.len() < 20 {
            return Err(EvtItemError::IOError);
        }
        Ok(CounterItem { count: read_le64(&ring.bytes, 12) })
    }
}


/// Contents of a SIS3300 item, as values.
pub struct Sis3300View {
    pub traces: Seq<Seq<u16>>,
    pub samples: nat,
    pub channels: nat,
    pub hasdata: bool,
}

/// Contents of a SIS3316 item, as values.
pub struct Sis3316View {
    pub traces: Seq<Seq<u16>>,
    pub samples: nat,
    pub channels: nat,
    pub valid: Seq<bool>,
    pub hasdata: bool,
}

/// Contents of a physics item, as values.
pub struct PhysicsView {
    pub event: u32,
    pub timestamp: u32,
    pub fadc1: Sis3300View,
    pub fadc2: Sis3300View,
    pub fadc3: Sis3300View,
    pub fadc4: Sis3316View,
    pub coinc: u16,
}

/// Item from Struck modules SIS3300 & SIS3301: 8 channel flash ADC.
#[derive(Debug, Clone, PartialEq, Eq)]
pub struct SIS3300Item {
    pub traces: Vec<Vec<u16>>,
    pub samples: usize,
    pub channels: usize,
    pub hasdata: bool,
}

/// Item from CAEN module V977: 16 bit coincidence register.
#[derive(Debug, Clone, Copy, Default, PartialEq, Eq)]
pub struct V977Item {
    pub coinc: u16,
}

/// Item from Struck module SIS3316: 16 channel flash ADC.
#[derive(Debug, Clone, PartialEq, Eq)]
pub struct SIS3316Item {
    pub traces: Vec<Vec<u16>>,
    pub samples: usize,
    pub channels: usize,
    pub valid: Vec<bool>,
    pub hasdata: bool,
}

/// The modules read by the VME stack for one physics trigger.
#[derive(Debug, Clone, PartialEq, Eq)]
pub struct PhysicsItem {
    pub event: u32,
    pub timestamp: u32,
    pub fadc1: SIS3300Item,
    pub fadc2: SIS3300Item,
    pub fadc3: SIS3300Item,
    pub fadc4: SIS3316Item,
    pub coinc: V977Item,
}

pub open spec fn traces_view(t: Seq<Vec<u16>>) -> Seq<Seq<u16>> {
    t.map_values(|v: Vec<u16>| v@)
}

impl View for SIS3300Item {
    type V = Sis3300View;

    open spec fn view(&self) -> Sis3300View {
        Sis3300View {
            traces: traces_view(self.traces@),
            samples: self.samples as nat,
            channels: self.channels as nat,
            hasdata: self.hasdata,
        }
    }
}

impl View for SIS3316Item {
    type V = Sis3316View;

    open spec fn view(&self) -> Sis3316View {
        Sis3316View {
            traces: traces_view(self.traces@),
            samples: self.samples as nat,
            channels: self.channels as nat,
            valid: self.valid@,
            hasdata: self.hasdata,
        }
    }
}

impl View for PhysicsItem {
    type V = PhysicsView;

    open spec fn view(&self) -> PhysicsView {
        PhysicsView {
            event: self.event,
            timestamp: self.timestamp,
            fadc1: self.fadc1@,
            fadc2: self.fadc2@,
            fadc3: self.fadc3@,
            fadc4: self.fadc4@,
            coinc: self.coinc.coinc,
        }
    }
}

pub open spec fn zeros(n: nat) -> Seq<u16> {
    Seq::new(n, |i: int| 0u16)
}

pub open spec fn sis3300_empty() -> Sis3300View {
    Sis3300View { traces: Seq::new(8, |i: int| Seq::empty()), samples: 0, channels: 0, hasdata: false }
}

pub open spec fn sis3316_empty() -> Sis3316View {
    Sis3316View {
        traces: Seq::new(16, |i: int| Seq::empty()),
        samples: 0,
        channels: 0,
        valid: Seq::new(16, |i: int| false),
        hasdata: false,
    }
}

/// How far the circular buffer of a SIS3300 group is rotated: when the wrap
/// bit (0x80000) of the trigger word is set and the 17-bit write pointer
/// `p` satisfies `p + 1 < n`, the oldest sample pair is `p + 1`.
pub open spec fn sis3300_shift(trigger: u32, n: nat) -> nat {
    let ptr = (trigger & 0x1ffff) as nat;
    if trigger & 0x80000 != 0 && ptr + 1 < n {
        ptr + 1
    } else {
        0
    }
}

/// Index of the sample pair that holds sample `p` of a buffer of `n` pairs
/// rotated by `shift < n`.
pub open spec fn rotated(p: int, shift: nat, n: nat) -> int {
    if p + shift < n {
        p + shift
    } else {
        p + shift - n
    }
}

/// One channel of a SIS3300 group: sample `p` is the 12 low bits of the first
/// (odd channel) or second (even channel) word of pair `rotated(p)`.
pub open spec fn sis3300_trace(b: Seq<u8>, start: int, n: nat, shift: nat, second: bool) -> Seq<u16> {
    Seq::new(
        n,
        |p: int|
            (le16(b, start + 4 * rotated(p, shift, n) + if second {
                2int
            } else {
                0int
            }) % 0x1000) as u16,
    )
}

/// Reads group `g` of a SIS3300 item at `pos`: the new contents, the
/// position after it, and whether reading stops there (a bad header or
/// trailer); `None` when the payload ends too early.
pub open spec fn sis3300_group(b: Seq<u8>, flags: u16, g: int, pos: int, m: Sis3300View) -> Option<
    (Sis3300View, int, bool),
> {
    let channels = m.channels + 2;
    if flags & (1u16 << (g as u16)) == 0 {
        let traces = if m.samples > 0 {
            m.traces.update(2 * g, zeros(m.samples)).update(2 * g + 1, zeros(m.samples))
        } else {
            m.traces
        };
        Some((Sis3300View { traces, samples: m.samples, channels, hasdata: m.hasdata }, pos, false))
    } else if pos + 2 > b.len() {
        None
    } else if le16(b, pos) != 0xfadc {
        Some((Sis3300View { traces: m.traces, samples: m.samples, channels, hasdata: m.hasdata }, pos + 2, true))
    } else if pos + 10 > b.len() {
        None
    } else {
        let trigger = le32(b, pos + 2) as u32;
        let n = le32(b, pos + 6) as nat;
        let start = pos + 10;
        if start + 4 * n + 2 > b.len() {
            None
        } else {
            let shift = sis3300_shift(trigger, n);
            let traces = m.traces.update(2 * g, sis3300_trace(b, start, n, shift, true)).update(
                2 * g + 1,
                sis3300_trace(b, start, n, shift, false),
            );
            let end = start + 4 * n + 2;
            let good = le16(b, start + 4 * n) == 0xffff;
            Some(
                (
                    Sis3300View { traces, samples: n, channels, hasdata: m.hasdata || good },
                    end,
                    !good,
                ),
            )
        }
    }
}

pub open spec fn sis3300_groups(b: Seq<u8>, flags: u16, g: int, pos: int, m: Sis3300View) -> Option<
    (Sis3300View, int),
>
    decreases 4 - g,
{
    if g >= 4 {
        Some((m, pos))
    } else {
        match sis3300_group(b, flags, g, pos, m) {
            None => None,
            Some((m2, p2, stop)) => if stop {
                Some((m2, p2))
            } else {
                sis3300_groups(b, flags, g + 1, p2, m2)
            },
        }
    }
}

/// A SIS3300 item at `pos`: `group_enable_flags:u16`, `daq_register:u32`,
/// then the enabled groups.
pub open spec fn sis3300_extract(b: Seq<u8>, pos: int, m: Sis3300View) -> Option<(Sis3300View, int)> {
    if pos + 6 > b.len() {
        None
    } else {
        sis3300_groups(b, le16(b, pos) as u16, 0, pos + 6, m)
    }
}

/// SIS3316 channel records from `pos`, each `chan_hdr:u16, stamp:u32,
/// stamp:u16, half_samples:u16, status:u16` and its samples, until a record
/// is followed by the word 0xFFFF (left unread). A trace holds the channel
/// number, then the samples.
pub open spec fn sis3316_records(b: Seq<u8>, pos: int, m: Sis3316View) -> Option<(Sis3316View, int)>
    decreases b.len() - pos,
{
    if pos < 0 || pos + 12 > b.len() {
        None
    } else {
        let ch = ((le16(b, pos) as u16) >> 4u16) & 0xfu16;
        let n = 2 * le16(b, pos + 8);
        let data = pos + 12;
        if data + 2 * n + 2 > b.len() {
            None
        } else {
            let trace = seq![ch] + Seq::new(n as nat, |i: int| le16(b, data + 2 * i) as u16);
            let next = data + 2 * n;
            let last = le16(b, next) == 0xffff;
            let m2 = Sis3316View {
                traces: m.traces.update(ch as int, trace),
                samples: n as nat,
                channels: m.channels + 1,
                valid: m.valid.update(ch as int, true),
                hasdata: m.hasdata || last,
            };
            if last {
                Some((m2, next))
            } else {
                sis3316_records(b, next, m2)
            }
        }
    }
}

/// The module blocks of a physics payload from `pos`: each a 2-byte tag
/// (0x1903, 0x1904, 0x1905: SIS3300; 0x1906: SIS3316; 0x0977: V977) and
/// its data. Reading ends at the end of the payload or at an unknown tag.
pub open spec fn physics_modules(b: Seq<u8>, pos: int, p: PhysicsView) -> Option<PhysicsView>
    decreases b.len() - pos,
{
    if pos < 0 || pos + 2 > b.len() {
        Some(p)
    } else {
        let tag = le16(b, pos);
        let q = pos + 2;
        if tag == 0x1903 {
            match sis3300_extract(b, q, p.fadc1) {
                None => None,
                Some((m, np)) => if np <= pos || np > b.len() {
                    Some(p)
                } else {
                    physics_modules(b, np, PhysicsView { fadc1: m, ..p })
                },
            }
        } else if tag == 0x1904 {
            match sis3300_extract(b, q, p.fadc2) {
                None => None,
                Some((m, np)) => if np <= pos || np > b.len() {
                    Some(p)
                } else {
                    physics_modules(b, np, PhysicsView { fadc2: m, ..p })
                },
            }
        } else if tag == 0x1905 {
            match sis3300_extract(b, q, p.fadc3) {
                None => None,
                Some((m, np)) => if np <= pos || np > b.len() {
                    Some(p)
                } else {
                    physics_modules(b, np, PhysicsView { fadc3: m, ..p })
                },
            }
        } else if tag == 0x1906 {
            match sis3316_records(b, q, p.fadc4) {
                None => None,
                Some((m, np)) => if np <= pos || np > b.len() {
                    Some(p)
                } else {
                    physics_modules(b, np, PhysicsView { fadc4: m, ..p })
                },
            }
        } else if tag == 0x0977 {
            if q + 2 > b.len() {
                None
            } else {
                physics_modules(b, q + 2, PhysicsView { coinc: le16(b, q) as u16, ..p })
            }
        } else {
            Some(p)
        }
    }
}

/// A physics payload: `event:u32, timestamp:u32`, then the module blocks.
pub open spec fn physics_spec(b: Seq<u8>) -> Option<PhysicsView> {
    if b.len() < 8 {
        None
    } else {
        physics_modules(
            b,
            8,
            PhysicsView {
                event: le32(b, 0) as u32,
                timestamp: le32(b, 4) as u32,
                fadc1: sis3300_empty(),
                fadc2: sis3300_empty(),
                fadc3: sis3300_empty(),
                fadc4: sis3316_empty(),
                coinc: 0,
            },
        )
    }
}

fn zero_vec(n: usize) -> (r: Vec<u16>)
    ensures
        r@ == zeros(n as nat),
{
    let mut r: Vec<u16> = Vec::new();
    let mut i: usize = 0;
    while i < n
        invariant
            i <= n,
            r@ == zeros(i as nat),
        decreases n - i,
    {
        r.push(0);
        i = i + 1;
        assert(r@ =~= zeros(i as nat));
    }
    r
}

fn empty_traces(n: usize) -> (r: Vec<Vec<u16>>)
    ensures
        traces_view(r@) == Seq::new(n as nat, |i: int| Seq::<u16>::empty()),
{
    let mut r: Vec<Vec<u16>> = Vec::new();
    let mut i: usize = 0;
    while i < n
        invariant
            i <= n,
            r@.len() == i,
            forall|k: int| 0 <= k < i ==> (#[trigger] r@[k])@ == Seq::<u16>::empty(),
        decreases n - i,
    {
        r.push(Vec::new());
        i = i + 1;
    }
    assert(traces_view(r@) =~= Seq::new(n as nat, |k: int| Seq::<u16>::empty()));
    r
}

/// The two channels of a SIS3300 group: (odd channel, even channel).
fn read_sis3300_pairs(b: &Vec<u8>, start: usize, n: usize, shift: usize) -> (r: (Vec<u16>, Vec<u16>))
    requires
        start + 4 * n <= b.len(),
        shift == 0 || shift < n,
    ensures
        r.0@ == sis3300_trace(b@, start as int, n as nat, shift as nat, false),
        r.1@ == sis3300_trace(b@, start as int, n as nat, shift as nat, true),
{
    let mut odd: Vec<u16> = Vec::new();
    let mut even: Vec<u16> = Vec::new();
    let mut p: usize = 0;
    while p < n
        invariant
            start + 4 * n <= b.len(),
            shift == 0 || shift < n,
            p <= n,
            odd@.len() == p,
            even@.len() == p,
            forall|k: int|
                0 <= k < p ==> odd@[k] == sis3300_trace(b@, start as int, n as nat, shift as nat, false)[k],
            forall|k: int|
                0 <= k < p ==> even@[k] == sis3300_trace(b@, start as int, n as nat, shift as nat, true)[k],
        decreases n - p,
    {
        let j = if p + shift < n { p + shift } else { p + shift - n };
        assert(j == rotated(p as int, shift as nat, n as nat));
        odd.push(read_le16(b, start + 4 * j) % 0x1000);
        even.push(read_le16(b, start + 4 * j + 2) % 0x1000);
        p = p + 1;
    }
    assert(odd@ =~= sis3300_trace(b@, start as int, n as nat, shift as nat, false));
    assert(even@ =~= sis3300_trace(b@, start as int, n as nat, shift as nat, true));
    (odd, even)
}

impl SIS3300Item {
    /// Eight empty channels.
    pub fn new() -> (r: SIS3300Item)
        ensures
            r@ == sis3300_empty(),
            r.traces@.len() == 8,
    {
        let r = SIS3300Item { traces: empty_traces(8), samples: 0, channels: 0, hasdata: false };
        assert(r@.traces =~= sis3300_empty().traces);
        r
    }

    fn read_group(&mut self, b: &Vec<u8>, flags: u16, g: usize, pos: usize) -> (r: Result<
        (usize, bool),
        EvtItemError,
    >)
        requires
            old(self).traces@.len() == 8,
            g < 4,
            pos <= b.len(),
            old(self).channels + 2 <= usize::MAX,
        ensures
            final(self).traces@.len() == 8,
            match sis3300_group(b@, flags, g as int, pos as int, old(self)@) {
                Some((m, p, stop)) => r == Ok::<(usize, bool), EvtItemError>((p as usize, stop))
                    && final(self)@ == m && pos <= p <= b@.len(),
                None => r == Err::<(usize, bool), EvtItemError>(EvtItemError::IOError),
            },
    {
        let ghost m = self@;
        let n = b.len();
        let g2 = 2 * g;
        if flags & (1u16 << (g as u16)) == 0 {
            self.channels = self.channels + 2;
            if self.samples > 0 {
                let z0 = zero_vec(self.samples);
                let z1 = zero_vec(self.samples);
                self.traces.set(g2, z0);
                self.traces.set(g2 + 1, z1);
            }
            assert(self@.traces =~= sis3300_group(b@, flags, g as int, pos as int, m).unwrap().0.traces);
            return Ok((pos, false));
        }
        self.channels = self.channels + 2;
        if n - pos < 2 {
            return Err(EvtItemError::IOError);
        }
        let header = read_le16(b, pos);
        if header != 0xfadc {
            return Ok((pos + 2, true));
        }
        if n - pos < 10 {
            return Err(EvtItemError::IOError);
        }
        let trigger = read_le32(b, pos + 2);
        let samples = read_le32(b, pos + 6) as usize;
        let start = pos + 10;
        if n - start < 2 || (n - start - 2) / 4 < samples {
            return Err(EvtItemError::IOError);
        }
        assert(trigger & 0x1ffff <= 0x1ffff) by (bit_vector);
        let ptr = (trigger & 0x1ffff) as usize;
        let shift: usize = if trigger & 0x80000 != 0 && ptr + 1 < samples { ptr + 1 } else { 0 };
        assert(shift == sis3300_shift(trigger, samples as nat));
        let (odd, even) = read_sis3300_pairs(b, start, samples, shift);
        self.traces.set(g2, even);
        self.traces.set(g2 + 1, odd);
        self.samples = samples;
        let end = start + 4 * samples;
        let trailer = read_le16(b, end);
        let good = trailer == 0xffff;
        if good {
            self.hasdata = true;
        }
        assert(self@.traces =~= sis3300_group(b@, flags, g as int, pos as int, m).unwrap().0.traces);
        Ok((end + 2, !good))
    }

    /// Reads a SIS3300 item from `b` at `pos` (just after its tag) into
    /// `self`, and returns the position after it (see `sis3300_extract`).
    /// A disabled group gets zero-filled channels of the last sample count;
    /// a bad group header or trailer ends the item without failing it.
    pub fn extract_data(&mut self, b: &Vec<u8>, pos: usize) -> (r: Result<usize, EvtItemError>)
        requires
            old(self).traces@.len() == 8,
            old(self).channels + 8 <= usize::MAX,
        ensures
            final(self).traces@.len() == 8,
            match sis3300_extract(b@, pos as int, old(self)@) {
                Some((m, p)) => r == Ok::<usize, EvtItemError>(p as usize) && final(self)@ == m && pos
                    + 6 <= p <= b@.len() && final(self).channels <= old(self).channels + 8,
                None => r == Err::<usize, EvtItemError>(EvtItemError::IOError),
            },
    {
        let n = b.len();
        if pos > n || n - pos < 6 {
            return Err(EvtItemError::IOError);
        }
        let flags = read_le16(b, pos);
        let ghost want = sis3300_extract(b@, pos as int, old(self)@);
        let mut cur = pos + 6;
        let mut g: usize = 0;
        while g < 4
            invariant
                n == b@.len(),
                pos + 6 <= cur <= n,
                g <= 4,
                self.traces@.len() == 8,
                self.channels == old(self).channels + 2 * g,
                old(self).channels + 8 <= usize::MAX,
                want == sis3300_groups(b@, flags, g as int, cur as int, self@),
                want == sis3300_extract(b@, pos as int, old(self)@),
            decreases 4 - g,
        {
            let ghost m0 = self@;
            let ghost c0 = cur as int;
            let step = self.read_group(b, flags, g, cur);
            assert(sis3300_groups(b@, flags, g as int, c0, m0) == match sis3300_group(b@, flags, g as int, c0, m0) {
                None => None,
                Some((m2, p2, stop)) => if stop {
                    Some((m2, p2))
                } else {
                    sis3300_groups(b@, flags, g + 1, p2, m2)
                },
            });
            match step {
                Err(e) => {
                    return Err(e);
                },
                Ok((next, stop)) => {
                    cur = next;
                    if stop {
                        return Ok(cur);
                    }
                },
            }
            g = g + 1;
        }
        Ok(cur)
    }
}

impl V977Item {
    pub fn new() -> (r: V977Item)
        ensures
            r.coinc == 0,
    {
        V977Item { coinc: 0 }
    }

    /// Reads the 16-bit coincidence mask at `pos`; returns the position after it.
    pub fn extract_data(&mut self, b: &Vec<u8>, pos: usize) -> (r: Result<usize, EvtItemError>)
        ensures
            r is Ok <==> pos + 2 <= b@.len(),
            r matches Ok(p) ==> p == pos + 2 && final(self).coinc == le16(b@, pos as int),
            r matches Err(e) ==> e == EvtItemError::IOError,
    {
        if pos > b.len() || b.len() - pos < 2 {
            return Err(EvtItemError::IOError);
        }
        self.coinc = read_le16(b, pos);
        Ok(pos + 2)
    }
}

impl SIS3316Item {
    /// Sixteen empty channels, none valid.
    pub fn new() -> (r: SIS3316Item)
        ensures
            r@ == sis3316_empty(),
            r.traces@.len() == 16,
            r.valid@.len() == 16,
    {
        let mut valid: Vec<bool> = Vec::new();
        let mut i: usize = 0;
        while i < 16
            invariant
                i <= 16,
                valid@ =~= Seq::new(i as nat, |k: int| false),
            decreases 16 - i,
        {
            valid.push(false);
            i = i + 1;
            assert(valid@ =~= Seq::new(i as nat, |k: int| false));
        }
        let r = SIS3316Item { traces: empty_traces(16), samples: 0, channels: 0, valid, hasdata: false };
        assert(r@.traces =~= sis3316_empty().traces);
        r
    }

    /// Reads SIS3316 channel records from `b` at `pos` (just after the tag)
    /// into `self`; returns the position of the terminating 0xFFFF word
    /// (see `sis3316_records`).
    pub fn extract_data(&mut self, b: &Vec<u8>, pos: usize) -> (r: Result<usize, EvtItemError>)
        requires
            old(self).traces@.len() == 16,
            old(self).valid@.len() == 16,
            old(self).channels + b@.len() <= usize::MAX + pos,
        ensures
            final(self).traces@.len() == 16,
            final(self).valid@.len() == 16,
            match sis3316_records(b@, pos as int, old(self)@) {
                Some((m, p)) => r == Ok::<usize, EvtItemError>(p as usize) && final(self)@ == m && pos
                    + 12 <= p <= b@.len() && final(self).channels + pos <= old(self).channels + p,
                None => r == Err::<usize, EvtItemError>(EvtItemError::IOError),
            },
    {
        let n = b.len();
        let ghost want = sis3316_records(b@, pos as int, old(self)@);
        let mut cur = pos;
        loop
            invariant
                n == b@.len(),
                pos <= cur,
                self.traces@.len() == 16,
                self.valid@.len() == 16,
                self.channels + pos <= old(self).channels + cur,
                old(self).channels + n <= usize::MAX + pos,
                want == sis3316_records(b@, cur as int, self@),
                want == sis3316_records(b@, pos as int, old(self)@),
                cur > pos ==> cur >= pos + 12,
            decreases n - cur,
        {
            let ghost m = self@;
            if cur > n || n - cur < 12 {
                return Err(EvtItemError::IOError);
            }
            let hdr = read_le16(b, cur);
            assert((hdr >> 4u16) & 0xfu16 < 16) by (bit_vector);
            let channel = ((hdr >> 4u16) & 0xfu16) as usize;
            let half = read_le16(b, cur + 8) as usize;
            let samples = 2 * half;
            let data = cur + 12;
            if n - data < 2 || (n - data - 2) / 2 < samples {
                return Err(EvtItemError::IOError);
            }
            let mut trace: Vec<u16> = Vec::new();
            trace.push(channel as u16);
            let mut i: usize = 0;
            while i < samples
                invariant
                    n == b@.len(),
                    data + 2 * samples + 2 <= n,
                    i <= samples,
                    trace@.len() == i + 1,
                    trace@[0] == channel as u16,
                    forall|k: int| 0 <= k < i ==> #[trigger] trace@[k + 1] == le16(b@, data + 2 * k) as u16,
                decreases samples - i,
            {
                trace.push(read_le16(b, data + 2 * i));
                i = i + 1;
            }
            assert(channel as u16 == (hdr >> 4u16) & 0xfu16);
            let ghost rhs = seq![((hdr >> 4u16) & 0xfu16)] + Seq::new(
                samples as nat,
                |k: int| le16(b@, data + 2 * k) as u16,
            );
            assert forall|j: int| 0 <= j < trace@.len() implies #[trigger] trace@[j] == rhs[j] by {
                if j > 0 {
                    let k = j - 1;
                    assert(trace@[k + 1] == le16(b@, data + 2 * k) as u16);
                }
            }
            assert(trace@ =~= rhs);
            self.traces.set(channel, trace);
            self.valid.set(channel, true);
            self.channels = self.channels + 1;
            self.samples = samples;
            let next = data + 2 * samples;
            let last = read_le16(b, next) == 0xffff;
            if last {
                self.hasdata = true;
            }
            assert(self@.traces =~= m.traces.update(channel as int, trace@));
            if last {
                return Ok(next);
            }
            cur = next;
        }
    }
}

impl PhysicsItem {
    /// Empty modules, event and timestamp zero.
    pub fn new() -> (r: PhysicsItem)
        ensures
            r.event == 0,
            r.timestamp == 0,
            r.fadc1@ == sis3300_empty(),
            r.fadc2@ == sis3300_empty(),
            r.fadc3@ == sis3300_empty(),
            r.fadc4@ == sis3316_empty(),
            r.coinc.coinc == 0,
            r.fadc1.traces@.len() == 8,
            r.fadc2.traces@.len() == 8,
            r.fadc3.traces@.len() == 8,
            r.fadc4.traces@.len() == 16,
            r.fadc4.valid@.len() == 16,
    {
        PhysicsItem {
            event: 0,
            timestamp: 0,
            fadc1: SIS3300Item::new(),
            fadc2: SIS3300Item::new(),
            fadc3: SIS3300Item::new(),
            fadc4: SIS3316Item::new(),
            coinc: V977Item::new(),
        }
    }

    /// Decodes a physics payload (see `physics_spec`). Fails when the payload
    /// ends inside a field that had to be read.
    pub fn decode(ring: &RingItem) -> (r: Result<PhysicsItem, EvtItemError>)
        ensures
            match physics_spec(ring.bytes@) {
                Some(v) => r matches Ok(item) && item@ == v,
                None => r == Err::<PhysicsItem, EvtItemError>(EvtItemError::IOError),
            },
    {
        let b = &ring.bytes;
        let n = b.len();
        if n < 8 {
            return Err(EvtItemError::IOError);
        }
        let mut info = PhysicsItem::new();
        info.event = read_le32(b, 0);
        info.timestamp = read_le32(b, 4);
        let ghost want = physics_spec(b@);
        assert(info@ == PhysicsView { event: le32(b@, 0) as u32, timestamp: le32(b@, 4) as u32, fadc1: sis3300_empty(), fadc2: sis3300_empty(), fadc3: sis3300_empty(), fadc4: sis3316_empty(), coinc: 0 });
        let mut cur: usize = 8;
        loop
            invariant
                n == b@.len(),
                cur <= n,
                info.fadc1.traces@.len() == 8,
                info.fadc2.traces@.len() == 8,
                info.fadc3.traces@.len() == 8,
                info.fadc4.traces@.len() == 16,
                info.fadc4.valid@.len() == 16,
                info.fadc1.channels <= cur,
                info.fadc2.channels <= cur,
                info.fadc3.channels <= cur,
                info.fadc4.channels <= cur,
                want == physics_modules(b@, cur as int, info@),
                want == physics_spec(ring.bytes@),
            decreases n - cur,
        {
            if n - cur < 2 {
                return Ok(info);
            }
            let tag = read_le16(b, cur);
            let q = cur + 2;
            if (tag == 0x1903 || tag == 0x1904 || tag == 0x1905) && n - q < 6 {
                return Err(EvtItemError::IOError);
            }
            if tag == 0x1903 {
                cur = info.fadc1.extract_data(b, q)?;
            } else if tag == 0x1904 {
                cur = info.fadc2.extract_data(b, q)?;
            } else if tag == 0x1905 {
                cur = info.fadc3.extract_data(b, q)?;
            } else if tag == 0x1906 {
                cur = info.fadc4.extract_data(b, q)?;
            } else if tag == 0x0977 {
                cur = info.coinc.extract_data(b, q)?;
            } else {
                return Ok(info);
            }
        }
    }
}

/// Removing boundaries from a payload whose first length tag covers all
/// that follows (a payload without boundaries) removes only that tag: the
/// samples after it are kept as they are.
pub proof fn lemma_remove_boundaries_single_chunk(b: Seq<u8>)
    requires
        b.len() >= 2,
        (le16(b, 0) % 0x1000) * 2 >= b.len() - 2,
    ensures
        strip_boundaries(b) == b.subrange(2, b.len() as int),
{
}

/// Decoding is a function of the bytes alone: decoding equal buffers, or
/// one buffer twice, gives equal results for every kind of ring item.
pub proof fn lemma_decode_twice(a: Seq<u8>, b: Seq<u8>)
    requires
        a == b,
    ensures
        a.len() >= NO_HEADER_INDEX ==> payload_start(a) == payload_start(b) && a.subrange(payload_start(a), a.len() as int)
            == b.subrange(payload_start(b), b.len() as int),
        begin_ok(a) == begin_ok(b),
        forall|x: BeginRunItem, y: BeginRunItem|
            begin_matches(a, x) && begin_matches(b, y) ==> x.run == y.run && x.start == y.start && x.title@ == y.title@,
        forall|x: EndRunItem, y: EndRunItem| end_matches(a, x) && end_matches(b, y) ==> x == y,
        scalers_ok(a) == scalers_ok(b),
        forall|x: ScalersItem, y: ScalersItem|
            scalers_matches(a, x) && scalers_matches(b, y) ==> x.data@ == y.data@ && x.start_offset == y.start_offset
                && x.stop_offset == y.stop_offset && x.timestamp == y.timestamp && x.incremental == y.incremental,
        physics_spec(a) == physics_spec(b),
        physics_spec(strip_boundaries(a)) == physics_spec(strip_boundaries(b)),
{
    assert forall|x: ScalersItem, y: ScalersItem| scalers_matches(a, x) && scalers_matches(b, y) implies x.data@ == y.data@ by {
        assert(x.data@ =~= y.data@);
    }
}

} // verus!
