//! An event: the traces of all channels hit under one GET event id.
use std::collections::HashMap;
use vstd::prelude::*;

use crate::channel_map::GetChannelMap;
use crate::constants::{fpn_channel, is_fpn_channel, COBO_WITH_TIMESTAMP};
use crate::error::EventError;
use crate::graw_frame::{GrawData, GrawFrame};
use crate::hardware_id::{generate_uuid, uuid_of, Detector, HardwareID};

verus! {

broadcast use vstd::std_specs::hash::group_hash_axioms;

/// Samples per trace: one per time bucket.
pub const TRACE_LENGTH: usize = 512;

/// Traces of an event, by hardware key: the hardware and its 512 samples.
pub type TraceMap = Map<u64, (HardwareID, Seq<i16>)>;

pub open spec fn zero_trace() -> Seq<i16> {
    Seq::new(512, |t: int| 0i16)
}

/// The key a datum of a frame from (`cobo`, `asad`) is filed under.
pub open spec fn datum_key(cobo: u8, asad: u8, d: GrawData) -> u64 {
    uuid_of(cobo as int, asad as int, d.aget_id as int, d.channel as int) as u64
}

/// One datum added to the traces: dropped on a fixed-pattern-noise channel
/// or an address the channel map lacks, else written into its trace (a new
/// zero trace for an address not seen yet).
pub open spec fn apply_datum(tr: TraceMap, map: Map<u64, HardwareID>, cobo: u8, asad: u8, d: GrawData) -> TraceMap {
    let key = datum_key(cobo, asad, d);
    if is_fpn_channel(d.channel) || !map.contains_key(key) {
        tr
    } else if tr.contains_key(key) {
        tr.insert(key, (tr[key].0, tr[key].1.update(d.time_bucket_id as int, d.sample)))
    } else {
        tr.insert(key, (map[key], zero_trace().update(d.time_bucket_id as int, d.sample)))
    }
}

pub open spec fn apply_data(tr: TraceMap, map: Map<u64, HardwareID>, cobo: u8, asad: u8, data: Seq<GrawData>) -> TraceMap
    decreases data.len(),
{
    if data.len() == 0 {
        tr
    } else {
        apply_datum(apply_data(tr, map, cobo, asad, data.drop_last()), map, cobo, asad, data.last())
    }
}

/// The traces built from `frames`, in order.
pub open spec fn event_traces(map: Map<u64, HardwareID>, frames: Seq<GrawFrame>) -> TraceMap
    decreases frames.len(),
{
    if frames.len() == 0 {
        Map::empty()
    } else {
        let f = frames.last();
        apply_data(event_traces(map, frames.drop_last()), map, f.header.cobo_id, f.header.asad_id, f.data@)
    }
}

/// Event time of the last frame whose CoBo is (`other`) or is not (`!other`)
/// the timestamp CoBo; 0 when there is none.
pub open spec fn last_time(frames: Seq<GrawFrame>, other: bool) -> u64
    decreases frames.len(),
{
    if frames.len() == 0 {
        0
    } else if (frames.last().header.cobo_id == COBO_WITH_TIMESTAMP) == other {
        frames.last().header.event_time
    } else {
        last_time(frames.drop_last(), other)
    }
}

/// Event id of the first frame from `i` on whose id is not `id`.
pub open spec fn first_mismatch(frames: Seq<GrawFrame>, id: u32, i: int) -> Option<u32>
    decreases frames.len() - i,
{
    if i < 0 || i >= frames.len() {
        None
    } else if frames[i].header.event_id != id {
        Some(frames[i].header.event_id)
    } else {
        first_mismatch(frames, id, i + 1)
    }
}

/// All time buckets of the frames are below 512.
pub open spec fn frames_in_range(frames: Seq<GrawFrame>) -> bool {
    forall|i: int, j: int|
        0 <= i < frames.len() && 0 <= j < frames[i].data@.len() ==> (#[trigger] frames[i].data@[j]).time_bucket_id < 512
}

/// The traces of an event, stored flat: trace `i` is `samples[512*i..512*i+512]`,
/// for the hardware `hardware[i]` filed under key `keys[i]`.
#[derive(Debug, Clone)]
pub struct TraceStore {
    keys: Vec<u64>,
    hardware: Vec<HardwareID>,
    samples: Vec<i16>,
    index: HashMap<u64, usize>,
}

/// An event: its traces, the number of frames it was built from, its id
/// and its two timestamps.
#[derive(Debug, Clone)]
pub struct Event {
    pub traces: TraceStore,
    pub nframes: usize,
    pub timestamp: u64,
    pub timestampother: u64,
    pub event_id: u32,
}

proof fn lemma_blocks_disjoint(i: int, j: int, t: int, u: int)
    requires
        i != j,
        0 <= t < 512,
        0 <= u < 512,
    ensures
        512 * i + t != 512 * j + u,
{
    assert(512 * i + t != 512 * j + u) by (nonlinear_arith)
        requires
            i != j,
            0 <= t < 512,
            0 <= u < 512,
    ;
}

impl TraceStore {
    pub closed spec fn wf(&self) -> bool {
        &&& self.hardware@.len() == self.keys@.len()
        &&& self.samples@.len() == 512 * self.keys@.len()
        &&& forall|i: int|
            0 <= i < self.keys@.len() ==> self.index@.contains_key(#[trigger] self.keys@[i])
                && self.index@[self.keys@[i]] == i
        &&& forall|k: u64|
            #[trigger] self.index@.contains_key(k) ==> self.index@[k] < self.keys@.len()
                && self.keys@[self.index@[k] as int] == k
    }

    /// The traces, by key.
    pub closed spec fn traces(&self) -> TraceMap {
        Map::new(
            |k: u64| self.index@.contains_key(k),
            |k: u64|
                (
                    self.hardware@[self.index@[k] as int],
                    Seq::new(512, |t: int| self.samples@[512 * self.index@[k] + t]),
                ),
        )
    }

    /// Keys of the traces in the order they were first hit.
    pub closed spec fn trace_keys(&self) -> Seq<u64> {
        self.keys@
    }

    /// Each key of `trace_keys` appears once and has a trace, and each trace
    /// has its key there.
    pub proof fn lemma_trace_keys(&self)
        requires
            self.wf(),
        ensures
            self.trace_keys().no_duplicates(),
            forall|i: int|
                0 <= i < self.trace_keys().len() ==> self.traces().contains_key(#[trigger] self.trace_keys()[i]),
            forall|k: u64| #[trigger] self.traces().contains_key(k) ==> self.trace_keys().contains(k),
    {
        assert forall|k: u64| #[trigger] self.traces().contains_key(k) implies self.trace_keys().contains(k) by {
            assert(self.trace_keys()[self.index@[k] as int] == k);
        }
    }

    /// Every trace of an event has exactly 512 samples, one per time bucket.
    pub proof fn lemma_traces_full_length(&self)
        requires
            self.wf(),
        ensures
            forall|k: u64| #[trigger] self.traces().contains_key(k) ==> self.traces()[k].1.len() == 512,
    {
    }

    fn empty() -> (r: TraceStore)
        ensures
            r.wf(),
            r.traces() == Map::<u64, (HardwareID, Seq<i16>)>::empty(),
            r.trace_keys().len() == 0,
    {
        let r = TraceStore { keys: Vec::new(), hardware: Vec::new(), samples: Vec::new(), index: HashMap::new() };
        assert(r.traces() =~= Map::<u64, (HardwareID, Seq<i16>)>::empty());
        r
    }

    /// Writes one sample into the trace of `key`, starting a zero trace for
    /// `hw` when the key has none.
    fn put_sample(&mut self, key: u64, hw: HardwareID, tb: u16, v: i16)
        requires
            old(self).wf(),
            tb < 512,
        ensures
            final(self).wf(),
            final(self).traces() == (if old(self).traces().contains_key(key) {
                old(self).traces().insert(
                    key,
                    (old(self).traces()[key].0, old(self).traces()[key].1.update(tb as int, v)),
                )
            } else {
                old(self).traces().insert(key, (hw, zero_trace().update(tb as int, v)))
            }),
    {
        let ghost before = self.traces();
        let i: usize = match self.index.get(&key) {
            Some(i) => *i,
            None => {
                let i = self.keys.len();
                let mut t: usize = 0;
                while t < TRACE_LENGTH
                    invariant
                        t <= 512,
                        self.samples@.len() == 512 * i + t,
                        self.keys@.len() == i,
                        forall|j: int| 0 <= j < 512 * i ==> self.samples@[j] == old(self).samples@[j],
                        forall|j: int| 512 * i <= j < 512 * i + t ==> self.samples@[j] == 0,
                        self.samples@.len() == old(self).samples@.len() + t,
                        self.keys == old(self).keys,
                        self.hardware == old(self).hardware,
                        self.index == old(self).index,
                        old(self).wf(),
                    decreases 512 - t,
                {
                    self.samples.push(0);
                    t = t + 1;
                }
                self.keys.push(key);
                self.hardware.push(hw);
                self.index.insert(key, i);
                proof {
                    assert forall|k: u64| #[trigger] self.index@.contains_key(k) implies self.index@[k]
                        < self.keys@.len() && self.keys@[self.index@[k] as int] == k by {
                        if k != key {
                            assert(old(self).index@.contains_key(k));
                        }
                    }
                    assert forall|j: int| 0 <= j < self.keys@.len() implies self.index@.contains_key(
                        #[trigger] self.keys@[j],
                    ) && self.index@[self.keys@[j]] == j by {
                        if j < i {
                            assert(self.keys@[j] == old(self).keys@[j]);
                            assert(self.keys@[j] != key);
                        }
                    }
                }
                i
            },
        };
        assert(i < self.keys@.len());
        let total = self.samples.len();
        assert(512 * i + 512 <= total);
        let ghost mid = self.samples@;
        self.samples.set(512 * i + tb as usize, v);
        proof {
            let after = self.traces();
            let want = if before.contains_key(key) {
                before.insert(key, (before[key].0, before[key].1.update(tb as int, v)))
            } else {
                before.insert(key, (hw, zero_trace().update(tb as int, v)))
            };
            assert forall|k: u64| after.contains_key(k) implies after[k] == want[k] by {
                let j = self.index@[k] as int;
                if k == key {
                    assert(j == i);
                    assert(after[k].1 =~= want[k].1);
                } else {
                    assert(j != i as int);
                    assert forall|t: int| 0 <= t < 512 implies #[trigger] self.samples@[512 * j + t] == mid[512 * j + t] by {
                        lemma_blocks_disjoint(j, i as int, t, tb as int);
                    }
                    assert(after[k].1 =~= want[k].1);
                }
            }
            assert(after.dom() =~= want.dom());
            assert(after =~= want);
        }
    }
}

impl Event {
    pub open spec fn wf(&self) -> bool {
        self.traces.wf()
    }

    /// Adds the samples of one frame; the first frame sets the event id, a
    /// later one with another id is refused.
    fn append_frame(&mut self, pad_map: &GetChannelMap, frame: &GrawFrame) -> (r: Result<(), EventError>)
        requires
            old(self).wf(),
            old(self).nframes < usize::MAX,
            forall|j: int| 0 <= j < frame.data@.len() ==> (#[trigger] frame.data@[j]).time_bucket_id < 512,
        ensures
            final(self).wf(),
            old(self).nframes > 0 && frame.header.event_id != old(self).event_id ==> r
                == Err::<(), EventError>(EventError::MismatchedEventID(frame.header.event_id, old(self).event_id))
                && *final(self) == *old(self),
            !(old(self).nframes > 0 && frame.header.event_id != old(self).event_id) ==> {
                &&& r is Ok
                &&& final(self).nframes == old(self).nframes + 1
                &&& final(self).event_id == frame.header.event_id
                &&& final(self).traces.traces() == apply_data(
                    old(self).traces.traces(),
                    pad_map@,
                    frame.header.cobo_id,
                    frame.header.asad_id,
                    frame.data@,
                )
                &&& frame.header.cobo_id == COBO_WITH_TIMESTAMP ==> final(self).timestampother
                    == frame.header.event_time && final(self).timestamp == old(self).timestamp
                &&& frame.header.cobo_id != COBO_WITH_TIMESTAMP ==> final(self).timestamp
                    == frame.header.event_time && final(self).timestampother == old(self).timestampother
            },
    {
        if self.nframes == 0 {
            self.event_id = frame.header.event_id;
        } else if self.event_id != frame.header.event_id {
            return Err(EventError::MismatchedEventID(frame.header.event_id, self.event_id));
        }
        if frame.header.cobo_id == COBO_WITH_TIMESTAMP {
            self.timestampother = frame.header.event_time;
        } else {
            self.timestamp = frame.header.event_time;
        }
        let ghost start = self.traces.traces();
        let cobo = frame.header.cobo_id;
        let asad = frame.header.asad_id;
        let mut i: usize = 0;
        while i < frame.data.len()
            invariant
                self.wf(),
                i <= frame.data@.len(),
                forall|j: int| 0 <= j < frame.data@.len() ==> (#[trigger] frame.data@[j]).time_bucket_id < 512,
                self.traces.traces() == apply_data(start, pad_map@, cobo, asad, frame.data@.subrange(0, i as int)),
                self.event_id == frame.header.event_id,
                self.nframes == old(self).nframes,
                frame.header.cobo_id == COBO_WITH_TIMESTAMP ==> self.timestampother
                    == frame.header.event_time && self.timestamp == old(self).timestamp,
                frame.header.cobo_id != COBO_WITH_TIMESTAMP ==> self.timestamp
                    == frame.header.event_time && self.timestampother == old(self).timestampother,
            decreases frame.data@.len() - i,
        {
            let d = frame.data[i];
            assert(frame.data@.subrange(0, i + 1).drop_last() =~= frame.data@.subrange(0, i as int));
            if !fpn_channel(d.channel) {
                match pad_map.get_hardware_id(&cobo, &asad, &d.aget_id, &d.channel) {
                    Some(hw) => {
                        let key = generate_uuid(&cobo, &asad, &d.aget_id, &d.channel);
                        self.traces.put_sample(key, *hw, d.time_bucket_id, d.sample);
                    },
                    None => {},
                }
            }
            i = i + 1;
        }
        assert(frame.data@.subrange(0, frame.data@.len() as int) =~= frame.data@);
        self.nframes = self.nframes + 1;
        Ok(())
    }

    /// The event built from `frames`, which must all carry the event id of
    /// the first. Samples on fixed-pattern-noise channels or on addresses
    /// that `pad_map` lacks are dropped; the timestamp CoBo's frames set
    /// `timestampother`, the others `timestamp`.
    pub fn new(pad_map: &GetChannelMap, frames: &Vec<GrawFrame>) -> (r: Result<Self, EventError>)
        requires
            frames_in_range(frames@),
        ensures
            frames@.len() > 0 && first_mismatch(frames@, frames@[0].header.event_id, 0) is Some ==> r
                == Err::<Event, EventError>(
                EventError::MismatchedEventID(
                    first_mismatch(frames@, frames@[0].header.event_id, 0).unwrap(),
                    frames@[0].header.event_id,
                ),
            ),
            frames@.len() == 0 || first_mismatch(frames@, frames@[0].header.event_id, 0) is None ==> (r matches Ok(e) && {
                &&& e.wf()
                &&& e.nframes == frames@.len()
                &&& e.traces.traces() == event_traces(pad_map@, frames@)
                &&& e.event_id == (if frames@.len() == 0 {
                    0
                } else {
                    frames@[0].header.event_id
                })
                &&& e.timestamp == last_time(frames@, false)
                &&& e.timestampother == last_time(frames@, true)
            }),
    {
        let mut event = Event { traces: TraceStore::empty(), nframes: 0, timestamp: 0, timestampother: 0, event_id: 0 };
        let mut i: usize = 0;
        while i < frames.len()
            invariant
                frames_in_range(frames@),
                i <= frames@.len(),
                event.wf(),
                event.nframes == i,
                i > 0 ==> event.event_id == frames@[0].header.event_id,
                i == 0 ==> event.event_id == 0,
                forall|j: int| 0 <= j < i ==> (#[trigger] frames@[j]).header.event_id == event.event_id,
                event.traces.traces() == event_traces(pad_map@, frames@.subrange(0, i as int)),
                event.timestamp == last_time(frames@.subrange(0, i as int), false),
                event.timestampother == last_time(frames@.subrange(0, i as int), true),
            decreases frames@.len() - i,
        {
            let ghost pre = frames@.subrange(0, i as int);
            assert(frames@.subrange(0, i + 1).drop_last() =~= pre);
            proof {
                assert forall|j: int| 0 <= j < frames@[i as int].data@.len() implies (
                #[trigger] frames@[i as int].data@[j]).time_bucket_id < 512 by {
                    assert(frames@[i as int].data@[j] == frames@[i as int].data@[j]);
                }
            }
            match event.append_frame(pad_map, &frames[i]) {
                Ok(()) => {},
                Err(e) => {
                    proof {
                        lemma_first_mismatch(frames@, frames@[0].header.event_id, 0, i as int);
                    }
                    return Err(e);
                },
            }
            i = i + 1;
        }
        proof {
            assert(frames@.subrange(0, frames@.len() as int) =~= frames@);
            if frames@.len() > 0 {
                lemma_no_mismatch(frames@, frames@[0].header.event_id, 0);
            }
        }
        Ok(event)
    }
}

proof fn lemma_first_mismatch(frames: Seq<GrawFrame>, id: u32, from: int, at: int)
    requires
        0 <= from <= at < frames.len(),
        forall|j: int| from <= j < at ==> (#[trigger] frames[j]).header.event_id == id,
        frames[at].header.event_id != id,
    ensures
        first_mismatch(frames, id, from) == Some(frames[at].header.event_id),
    decreases at - from,
{
    if from < at {
        lemma_first_mismatch(frames, id, from + 1, at);
    }
}

pub proof fn lemma_no_mismatch(frames: Seq<GrawFrame>, id: u32, from: int)
    requires
        0 <= from <= frames.len(),
        forall|j: int| from <= j < frames.len() ==> (#[trigger] frames[j]).header.event_id == id,
    ensures
        first_mismatch(frames, id, from) is None,
    decreases frames.len() - from,
{
    if from < frames.len() {
        lemma_no_mismatch(frames, id, from + 1);
    }
}


/// Which output matrix a detector's traces go to: 0 pads, 1 upstream front,
/// 2 upstream back, 3 downstream front, 4 downstream back silicon.
pub open spec fn detector_group(d: Detector) -> nat {
    match d {
        Detector::Pad(_) => 0,
        Detector::SiUpstreamFront(_) => 1,
        Detector::SiUpstreamBack(_) => 2,
        Detector::SiDownstreamFront(_) => 3,
        Detector::SiDownstreamBack(_) => 4,
    }
}

pub open spec fn detector_channel(d: Detector) -> usize {
    match d {
        Detector::Pad(c) => c,
        Detector::SiUpstreamFront(c) => c,
        Detector::SiUpstreamBack(c) => c,
        Detector::SiDownstreamFront(c) => c,
        Detector::SiDownstreamBack(c) => c,
    }
}

/// A matrix row: cobo, asad, aget, channel, detector channel (each cast to
/// i16), then the 512 samples.
pub open spec fn matrix_row(h: HardwareID, trace: Seq<i16>) -> Seq<i16> {
    seq![
        h.cobo_id as i16,
        h.asad_id as i16,
        h.aget_id as i16,
        h.channel as i16,
        detector_channel(h.detector) as i16,
    ] + trace
}

/// Rows, in the order of `keys`, of the traces whose detector is in `group`.
pub open spec fn group_rows(tr: TraceMap, keys: Seq<u64>, group: nat) -> Seq<Seq<i16>>
    decreases keys.len(),
{
    if keys.len() == 0 {
        seq![]
    } else {
        let rows = group_rows(tr, keys.drop_last(), group);
        let k = keys.last();
        if detector_group(tr[k].0.detector) == group {
            rows.push(matrix_row(tr[k].0, tr[k].1))
        } else {
            rows
        }
    }
}

/// The data matrices of an event, one per detector group, each row of
/// `NUMBER_OF_MATRIX_COLUMNS` values.
#[derive(Debug, Clone, PartialEq, Eq)]
pub struct EventMatrices {
    pub pads: Vec<Vec<i16>>,
    pub si_upstream_front: Vec<Vec<i16>>,
    pub si_upstream_back: Vec<Vec<i16>>,
    pub si_downstream_front: Vec<Vec<i16>>,
    pub si_downstream_back: Vec<Vec<i16>>,
}

pub open spec fn rows_view(m: Seq<Vec<i16>>) -> Seq<Seq<i16>> {
    m.map_values(|r: Vec<i16>| r@)
}

fn detector_parts(d: Detector) -> (r: (u8, usize))
    ensures
        r.0 == detector_group(d),
        r.1 == detector_channel(d),
{
    match d {
        Detector::Pad(c) => (0, c),
        Detector::SiUpstreamFront(c) => (1, c),
        Detector::SiUpstreamBack(c) => (2, c),
        Detector::SiDownstreamFront(c) => (3, c),
        Detector::SiDownstreamBack(c) => (4, c),
    }
}

impl TraceStore {
    fn row(&self, i: usize) -> (r: Vec<i16>)
        requires
            self.wf(),
            i < self.keys@.len(),
        ensures
            r@ == matrix_row(self.traces()[self.keys@[i as int]].0, self.traces()[self.keys@[i as int]].1),
    {
        let h = self.hardware[i];
        let (_, channel) = detector_parts(h.detector);
        let mut r: Vec<i16> = Vec::new();
        r.push(#[verifier::truncate] (h.cobo_id as i16));
        r.push(#[verifier::truncate] (h.asad_id as i16));
        r.push(#[verifier::truncate] (h.aget_id as i16));
        r.push(#[verifier::truncate] (h.channel as i16));
        r.push(#[verifier::truncate] (channel as i16));
        let total = self.samples.len();
        assert(512 * i + 512 <= total);
        let base = 512 * i;
        let mut t: usize = 0;
        while t < TRACE_LENGTH
            invariant
                t <= 512,
                base == 512 * i,
                base + 512 <= total,
                total == self.samples@.len(),
                r@.len() == 5 + t,
                r@.subrange(0, 5) == seq![
                    h.cobo_id as i16,
                    h.asad_id as i16,
                    h.aget_id as i16,
                    h.channel as i16,
                    channel as i16,
                ],
                forall|j: int| 0 <= j < t ==> #[trigger] r@[5 + j] == self.samples@[base + j],
            decreases 512 - t,
        {
            r.push(self.samples[base + t]);
            t = t + 1;
        }
        proof {
            let k = self.keys@[i as int];
            assert(self.index@[k] == i);
            let want = matrix_row(self.traces()[k].0, self.traces()[k].1);
            assert forall|j: int| 0 <= j < r@.len() implies #[trigger] r@[j] == want[j] by {
                if j < 5 {
                    assert(r@[j] == r@.subrange(0, 5)[j]);
                } else {
                    assert(r@[5 + (j - 5)] == self.samples@[base + (j - 5)]);
                }
            }
            assert(r@ =~= want);
        }
        r
    }
}

impl Event {
    /// The data matrices of the event: one row per trace (see `matrix_row`),
    /// in the order the traces were first hit, split by detector group.
    pub fn convert_to_data_matrices(&self) -> (r: EventMatrices)
        requires
            self.wf(),
        ensures
            rows_view(r.pads@) == group_rows(self.traces.traces(), self.traces.trace_keys(), 0),
            rows_view(r.si_upstream_front@) == group_rows(self.traces.traces(), self.traces.trace_keys(), 1),
            rows_view(r.si_upstream_back@) == group_rows(self.traces.traces(), self.traces.trace_keys(), 2),
            rows_view(r.si_downstream_front@) == group_rows(self.traces.traces(), self.traces.trace_keys(), 3),
            rows_view(r.si_downstream_back@) == group_rows(self.traces.traces(), self.traces.trace_keys(), 4),
    {
        self.traces.matrices()
    }
}

impl TraceStore {
    fn matrices(&self) -> (r: EventMatrices)
        requires
            self.wf(),
        ensures
            rows_view(r.pads@) == group_rows(self.traces(), self.trace_keys(), 0),
            rows_view(r.si_upstream_front@) == group_rows(self.traces(), self.trace_keys(), 1),
            rows_view(r.si_upstream_back@) == group_rows(self.traces(), self.trace_keys(), 2),
            rows_view(r.si_downstream_front@) == group_rows(self.traces(), self.trace_keys(), 3),
            rows_view(r.si_downstream_back@) == group_rows(self.traces(), self.trace_keys(), 4),
    {
        let mut m = EventMatrices {
            pads: Vec::new(),
            si_upstream_front: Vec::new(),
            si_upstream_back: Vec::new(),
            si_downstream_front: Vec::new(),
            si_downstream_back: Vec::new(),
        };
        let n = self.keys.len();
        let mut i: usize = 0;
        while i < n
            invariant
                self.wf(),
                n == self.keys@.len(),
                i <= n,
                rows_view(m.pads@) == group_rows(self.traces(), self.keys@.subrange(0, i as int), 0),
                rows_view(m.si_upstream_front@) == group_rows(self.traces(), self.keys@.subrange(0, i as int), 1),
                rows_view(m.si_upstream_back@) == group_rows(self.traces(), self.keys@.subrange(0, i as int), 2),
                rows_view(m.si_downstream_front@) == group_rows(self.traces(), self.keys@.subrange(0, i as int), 3),
                rows_view(m.si_downstream_back@) == group_rows(self.traces(), self.keys@.subrange(0, i as int), 4),
            decreases n - i,
        {
            let ghost pre = self.keys@.subrange(0, i as int);
            let ghost next = self.keys@.subrange(0, i + 1);
            assert(next.drop_last() =~= pre);
            assert(next.last() == self.keys@[i as int]);
            assert(self.index@[self.keys@[i as int]] == i);
            let row = self.row(i);
            let (group, _) = detector_parts(self.hardware[i].detector);
            if group == 0 {
                m.pads.push(row);
            } else if group == 1 {
                m.si_upstream_front.push(row);
            } else if group == 2 {
                m.si_upstream_back.push(row);
            } else if group == 3 {
                m.si_downstream_front.push(row);
            } else {
                m.si_downstream_back.push(row);
            }
            assert(rows_view(m.pads@) =~= group_rows(self.traces(), next, 0));
            assert(rows_view(m.si_upstream_front@) =~= group_rows(self.traces(), next, 1));
            assert(rows_view(m.si_upstream_back@) =~= group_rows(self.traces(), next, 2));
            assert(rows_view(m.si_downstream_front@) =~= group_rows(self.traces(), next, 3));
            assert(rows_view(m.si_downstream_back@) =~= group_rows(self.traces(), next, 4));
            i = i + 1;
        }
        assert(self.keys@.subrange(0, n as int) =~= self.keys@);
        m
    }
}

/// Datum `d` of a frame from (`cobo`, `asad`) writes time bucket `t` of the
/// trace under key `k`.
pub open spec fn writes_sample(map: Map<u64, HardwareID>, cobo: u8, asad: u8, d: GrawData, k: u64, t: int) -> bool {
    &&& datum_key(cobo, asad, d) == k
    &&& d.time_bucket_id == t
    &&& !is_fpn_channel(d.channel)
    &&& map.contains_key(k)
}

pub open spec fn traces_full_length(tr: TraceMap) -> bool {
    forall|k: u64| #[trigger] tr.contains_key(k) ==> tr[k].1.len() == 512
}

proof fn lemma_apply_data_sources(
    tr: TraceMap,
    map: Map<u64, HardwareID>,
    cobo: u8,
    asad: u8,
    data: Seq<GrawData>,
    k: u64,
    t: int,
)
    requires
        forall|j: int| 0 <= j < data.len() ==> (#[trigger] data[j]).time_bucket_id < 512,
        traces_full_length(tr),
        0 <= t < 512,
    ensures
        traces_full_length(apply_data(tr, map, cobo, asad, data)),
        apply_data(tr, map, cobo, asad, data).contains_key(k) && apply_data(tr, map, cobo, asad, data)[k].1[t]
            != 0 ==> (tr.contains_key(k) && tr[k].1[t] != 0) || exists|j: int|
            0 <= j < data.len() && writes_sample(map, cobo, asad, #[trigger] data[j], k, t),
    decreases data.len(),
{
    if data.len() > 0 {
        let pre = data.drop_last();
        assert forall|j: int| 0 <= j < pre.len() implies (#[trigger] pre[j]).time_bucket_id < 512 by {
            assert(pre[j] == data[j]);
        }
        lemma_apply_data_sources(tr, map, cobo, asad, pre, k, t);
        let mid = apply_data(tr, map, cobo, asad, pre);
        let d = data.last();
        let out = apply_data(tr, map, cobo, asad, data);
        assert(out == apply_datum(mid, map, cobo, asad, d));
        assert(d == data[data.len() - 1]);
        assert(d.time_bucket_id < 512);
        assert(traces_full_length(out)) by {
            assert forall|kk: u64| #[trigger] out.contains_key(kk) implies out[kk].1.len() == 512 by {
                if kk == datum_key(cobo, asad, d) && !is_fpn_channel(d.channel) && map.contains_key(kk) && !mid.contains_key(kk) {
                    assert(out[kk].1 == zero_trace().update(d.time_bucket_id as int, d.sample));
                }
            }
        }
        if out.contains_key(k) && out[k].1[t] != 0 {
            let key = datum_key(cobo, asad, d);
            if is_fpn_channel(d.channel) || !map.contains_key(key) || key != k {
                assert(mid.contains_key(k) && mid[k] == out[k]);
            } else if d.time_bucket_id as int == t {
                assert(writes_sample(map, cobo, asad, data[data.len() - 1], k, t));
            } else if mid.contains_key(k) {
                assert(out[k].1[t] == mid[k].1[t]);
            } else {
                assert(out[k].1[t] == zero_trace()[t]);
            }
            if mid.contains_key(k) && mid[k].1[t] != 0 && !(tr.contains_key(k) && tr[k].1[t] != 0) {
                let j = choose|j: int| 0 <= j < pre.len() && writes_sample(map, cobo, asad, #[trigger] pre[j], k, t);
                assert(pre[j] == data[j]);
            }
        }
    }
}

/// The traces of an event built from in-range frames: each has 512
/// samples, and a nonzero sample at time bucket `t` of the trace under key
/// `k` was written by a datum of some frame that targets that key and time
/// bucket, on a channel that is not fixed-pattern noise and that the
/// channel map holds.
pub proof fn lemma_trace_sources(map: Map<u64, HardwareID>, frames: Seq<GrawFrame>, k: u64, t: int)
    requires
        frames_in_range(frames),
        0 <= t < 512,
    ensures
        traces_full_length(event_traces(map, frames)),
        event_traces(map, frames).contains_key(k) && event_traces(map, frames)[k].1[t] != 0 ==> exists|
            i: int,
            j: int,
        |
            0 <= i < frames.len() && 0 <= j < frames[i].data@.len() && writes_sample(
                map,
                frames[i].header.cobo_id,
                frames[i].header.asad_id,
                #[trigger] frames[i].data@[j],
                k,
                t,
            ),
    decreases frames.len(),
{
    if frames.len() > 0 {
        let pre = frames.drop_last();
        assert(frames_in_range(pre)) by {
            assert forall|i: int, j: int| 0 <= i < pre.len() && 0 <= j < pre[i].data@.len() implies (
            #[trigger] pre[i].data@[j]).time_bucket_id < 512 by {
                assert(pre[i] == frames[i]);
                assert(frames[i].data@[j].time_bucket_id < 512);
            }
        }
        lemma_trace_sources(map, pre, k, t);
        let f = frames.last();
        let li = frames.len() - 1;
        assert(f == frames[li]);
        assert forall|j: int| 0 <= j < f.data@.len() implies (#[trigger] f.data@[j]).time_bucket_id < 512 by {
            assert(frames[li].data@[j].time_bucket_id < 512);
        }
        let mid = event_traces(map, pre);
        lemma_apply_data_sources(mid, map, f.header.cobo_id, f.header.asad_id, f.data@, k, t);
        let out = event_traces(map, frames);
        if out.contains_key(k) && out[k].1[t] != 0 {
            if mid.contains_key(k) && mid[k].1[t] != 0 {
                let (i, j) = choose|i: int, j: int|
                    0 <= i < pre.len() && 0 <= j < pre[i].data@.len() && writes_sample(
                        map,
                        pre[i].header.cobo_id,
                        pre[i].header.asad_id,
                        #[trigger] pre[i].data@[j],
                        k,
                        t,
                    );
                assert(pre[i] == frames[i]);
                assert(writes_sample(map, frames[i].header.cobo_id, frames[i].header.asad_id, frames[i].data@[j], k, t));
            } else {
                let j = choose|j: int|
                    0 <= j < f.data@.len() && writes_sample(map, f.header.cobo_id, f.header.asad_id, #[trigger] f.data@[j], k, t);
                assert(writes_sample(map, frames[li].header.cobo_id, frames[li].header.asad_id, frames[li].data@[j], k, t));
            }
        }
    }
}

} // verus!
