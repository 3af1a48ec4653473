//! What the output writer computes before it touches the file: the FRIB
//! module matrices and the bookkeeping of first and last events.
use vstd::prelude::*;

use crate::ring_item::{SIS3300Item, SIS3316Item};

verus! {

/// Sample `j` of a trace, 0 past its end.
pub open spec fn sample_or_zero(t: Seq<u16>, j: int) -> u16 {
    if 0 <= j < t.len() {
        t[j]
    } else {
        0
    }
}

pub open spec fn matrix_view(m: Seq<Vec<u16>>) -> Seq<Seq<u16>> {
    m.map_values(|r: Vec<u16>| r@)
}

/// Indices of the valid channels, in order.
pub open spec fn valid_channels(valid: Seq<bool>) -> Seq<int>
    decreases valid.len(),
{
    if valid.len() == 0 {
        seq![]
    } else if valid.last() {
        valid_channels(valid.drop_last()).push(valid.len() - 1)
    } else {
        valid_channels(valid.drop_last())
    }
}

proof fn lemma_valid_channels_bounded(valid: Seq<bool>)
    ensures
        forall|c: int| 0 <= c < valid_channels(valid).len() ==> 0 <= #[trigger] valid_channels(valid)[c] < valid.len(),
        valid_channels(valid).len() <= valid.len(),
    decreases valid.len(),
{
    if valid.len() > 0 {
        lemma_valid_channels_bounded(valid.drop_last());
    }
}

fn trace_sample(t: &Vec<u16>, j: usize) -> (r: u16)
    ensures
        r == sample_or_zero(t@, j as int),
{
    if j < t.len() {
        t[j]
    } else {
        0
    }
}

/// The SIS3300 data as a matrix of `samples` rows and one column per
/// channel: entry (j, i) is sample j of channel i (0 where the channel's
/// trace is shorter).
pub fn sis3300_matrix(item: &SIS3300Item) -> (r: Vec<Vec<u16>>)
    ensures
        r@.len() == item.samples,
        forall|j: int|
            0 <= j < r@.len() ==> (#[trigger] r@[j])@.len() == item.traces@.len() && forall|i: int|
                0 <= i < item.traces@.len() ==> r@[j]@[i] == sample_or_zero(item.traces@[i]@, j),
{
    let mut m: Vec<Vec<u16>> = Vec::new();
    let n = item.traces.len();
    let mut j: usize = 0;
    while j < item.samples
        invariant
            j <= item.samples,
            n == item.traces@.len(),
            m@.len() == j,
            forall|k: int|
                0 <= k < j ==> (#[trigger] m@[k])@.len() == n && forall|i: int|
                    0 <= i < n ==> m@[k]@[i] == sample_or_zero(item.traces@[i]@, k),
        decreases item.samples - j,
    {
        let mut row: Vec<u16> = Vec::new();
        let mut i: usize = 0;
        while i < n
            invariant
                i <= n,
                n == item.traces@.len(),
                row@.len() == i,
                forall|c: int| 0 <= c < i ==> row@[c] == sample_or_zero(item.traces@[c]@, j as int),
            decreases n - i,
        {
            row.push(trace_sample(&item.traces[i], j));
            i = i + 1;
        }
        m.push(row);
        j = j + 1;
    }
    m
}

/// The SIS3316 data as a matrix of `samples + 1` rows (the channel number,
/// then the samples) and `channels` columns: column c holds the c-th valid
/// channel's trace (0 where it is shorter); columns past the valid channels
/// are 0.
pub fn sis3316_matrix(item: &SIS3316Item) -> (r: Vec<Vec<u16>>)
    requires
        item.samples < usize::MAX,
        item.traces@.len() == item.valid@.len(),
    ensures
        r@.len() == item.samples + 1,
        forall|j: int|
            0 <= j < r@.len() ==> (#[trigger] r@[j])@.len() == item.channels && forall|c: int|
                0 <= c < item.channels ==> r@[j]@[c] == (if c < valid_channels(item.valid@).len() {
                    sample_or_zero(item.traces@[valid_channels(item.valid@)[c]]@, j)
                } else {
                    0
                }),
{
    let ghost vc = valid_channels(item.valid@);
    proof {
        lemma_valid_channels_bounded(item.valid@);
    }
    let mut cols: Vec<usize> = Vec::new();
    let mut k: usize = 0;
    while k < item.valid.len()
        invariant
            k <= item.valid@.len(),
            cols@.map_values(|x: usize| x as int) == valid_channels(item.valid@.subrange(0, k as int)),
            forall|c: int| 0 <= c < cols@.len() ==> cols@[c] < k,
        decreases item.valid@.len() - k,
    {
        assert(item.valid@.subrange(0, k + 1).drop_last() =~= item.valid@.subrange(0, k as int));
        if item.valid[k] {
            cols.push(k);
        }
        assert(cols@.map_values(|x: usize| x as int) =~= valid_channels(item.valid@.subrange(0, k + 1)));
        k = k + 1;
    }
    assert(item.valid@.subrange(0, item.valid@.len() as int) =~= item.valid@);
    assert forall|c: int| 0 <= c < cols@.len() implies #[trigger] cols@[c] as int == vc[c] && cols@[c] < item.traces@.len() by {
        assert(cols@.map_values(|x: usize| x as int)[c] == vc[c]);
    }
    assert(cols@.len() == vc.len()) by {
        assert(cols@.map_values(|x: usize| x as int).len() == vc.len());
    }
    let rows = item.samples + 1;
    let width = item.channels;
    let ntr = item.traces.len();
    let mut m: Vec<Vec<u16>> = Vec::new();
    let mut j: usize = 0;
    while j < rows
        invariant
            j <= rows,
            rows == item.samples + 1,
            width == item.channels,
            ntr == item.traces@.len(),
            forall|c: int| 0 <= c < cols@.len() ==> #[trigger] cols@[c] < ntr,
            m@.len() == j,
            forall|k: int|
                0 <= k < j ==> (#[trigger] m@[k])@.len() == width && forall|c: int|
                    0 <= c < width ==> m@[k]@[c] == (if c < cols@.len() {
                        sample_or_zero(item.traces@[cols@[c] as int]@, k)
                    } else {
                        0
                    }),
        decreases rows - j,
    {
        let mut row: Vec<u16> = Vec::new();
        let mut c: usize = 0;
        while c < width
            invariant
                c <= width,
                ntr == item.traces@.len(),
                forall|x: int| 0 <= x < cols@.len() ==> #[trigger] cols@[x] < ntr,
                row@.len() == c,
                forall|x: int|
                    0 <= x < c ==> row@[x] == (if x < cols@.len() {
                        sample_or_zero(item.traces@[cols@[x] as int]@, j as int)
                    } else {
                        0
                    }),
            decreases width - c,
        {
            if c < cols.len() {
                let col = cols[c];
                row.push(trace_sample(&item.traces[col], j));
            } else {
                row.push(0);
            }
            c = c + 1;
        }
        m.push(row);
        j = j + 1;
    }
    m
}

/// First and last events written for a run, as the writer records them.
#[derive(Debug, Clone, Copy, PartialEq, Eq)]
pub struct RunSummary {
    /// Highest GET event counter written.
    pub last_get_event: u64,
    /// Highest FRIB physics counter written.
    pub last_frib_event: u64,
    /// Highest scaler counter written.
    pub last_scaler_event: u64,
    /// Timestamp of GET event 0.
    pub first_timestamp: u64,
    /// Timestamp of the GET event with the highest counter.
    pub last_timestamp: u64,
    /// Whether any GET event was recorded.
    pub has_get_event: bool,
}

impl RunSummary {
    pub fn new() -> (r: RunSummary)
        ensures
            r == (RunSummary {
                last_get_event: 0,
                last_frib_event: 0,
                last_scaler_event: 0,
                first_timestamp: 0,
                last_timestamp: 0,
                has_get_event: false,
            }),
    {
        RunSummary {
            last_get_event: 0,
            last_frib_event: 0,
            last_scaler_event: 0,
            first_timestamp: 0,
            last_timestamp: 0,
            has_get_event: false,
        }
    }

    /// A GET event written under `counter` with `timestamp`: event 0 gives
    /// the first timestamp; the first event recorded, or one with a counter
    /// above the highest so far, gives the last counter and timestamp.
    pub fn record_get_event(&mut self, counter: u64, timestamp: u64)
        ensures
            final(self).first_timestamp == (if counter == 0 {
                timestamp
            } else {
                old(self).first_timestamp
            }),
            final(self).has_get_event,
            !old(self).has_get_event || counter > old(self).last_get_event ==> final(self).last_get_event
                == counter && final(self).last_timestamp == timestamp,
            old(self).has_get_event && counter <= old(self).last_get_event ==> final(self).last_get_event
                == old(self).last_get_event && final(self).last_timestamp == old(self).last_timestamp,
            final(self).last_frib_event == old(self).last_frib_event,
            final(self).last_scaler_event == old(self).last_scaler_event,
    {
        if counter == 0 {
            self.first_timestamp = timestamp;
        }
        if !self.has_get_event || counter > self.last_get_event {
            self.last_get_event = counter;
            self.last_timestamp = timestamp;
        }
        self.has_get_event = true;
    }

    /// A FRIB physics event written under `counter`.
    pub fn record_frib_event(&mut self, counter: u64)
        ensures
            final(self).last_frib_event == (if counter > old(self).last_frib_event {
                counter
            } else {
                old(self).last_frib_event
            }),
            final(self).last_get_event == old(self).last_get_event,
            final(self).last_scaler_event == old(self).last_scaler_event,
            final(self).first_timestamp == old(self).first_timestamp,
            final(self).last_timestamp == old(self).last_timestamp,
            final(self).has_get_event == old(self).has_get_event,
    {
        if counter > self.last_frib_event {
            self.last_frib_event = counter;
        }
    }

    /// A scaler event written under `counter`.
    pub fn record_scaler_event(&mut self, counter: u64)
        ensures
            final(self).last_scaler_event == (if counter > old(self).last_scaler_event {
                counter
            } else {
                old(self).last_scaler_event
            }),
            final(self).last_get_event == old(self).last_get_event,
            final(self).last_frib_event == old(self).last_frib_event,
            final(self).first_timestamp == old(self).first_timestamp,
            final(self).last_timestamp == old(self).last_timestamp,
            final(self).has_get_event == old(self).has_get_event,
    {
        if counter > self.last_scaler_event {
            self.last_scaler_event = counter;
        }
    }

    /// Whether GET and FRIB saw the same number of events; when they did
    /// not, `max_event` is still taken from GET.
    pub fn counts_agree(&self) -> (r: bool)
        ensures
            r == (self.last_frib_event == self.last_get_event),
    {
        self.last_frib_event == self.last_get_event
    }

    /// Seconds between the first and last GET timestamps (100 MHz clock);
    /// 0 when the last is before the first.
    pub fn run_seconds(&self) -> (r: u64)
        ensures
            r == (if self.last_timestamp >= self.first_timestamp {
                ((self.last_timestamp - self.first_timestamp) / 100_000_000) as u64
            } else {
                0
            }),
    {
        if self.last_timestamp >= self.first_timestamp {
            (self.last_timestamp - self.first_timestamp) / 100_000_000
        } else {
            0
        }
    }
}

} // verus!
