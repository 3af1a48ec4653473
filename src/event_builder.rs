//! Groups the frames that the merger emits into events.
use vstd::prelude::*;

use crate::channel_map::GetChannelMap;
use crate::error::EventBuilderError;
use crate::event::{event_traces, frames_in_range, last_time, lemma_no_mismatch, Event};
use crate::graw_frame::{data_in_range, GrawFrame};
use crate::hardware_id::HardwareID;

verus! {

/// Collects frames while the event id stays the same, and hands out the
/// finished event when a frame of a later event arrives.
#[derive(Debug)]
pub struct EventBuilder {
    current_event_id: Option<u32>,
    pad_map: GetChannelMap,
    frame_stack: Vec<GrawFrame>,
}

/// `e` is the event built from `frames` with the channel map `map`.
pub open spec fn built_from(e: Event, map: Map<u64, HardwareID>, frames: Seq<GrawFrame>) -> bool {
    &&& e.wf()
    &&& e.traces.traces() == event_traces(map, frames)
    &&& e.event_id == frames[0].header.event_id
    &&& e.timestamp == last_time(frames, false)
    &&& e.timestampother == last_time(frames, true)
}

impl EventBuilder {
    /// Event id being built, if any frame came yet.
    pub closed spec fn current(&self) -> Option<u32> {
        self.current_event_id
    }

    /// Frames of the event being built.
    pub closed spec fn frames(&self) -> Seq<GrawFrame> {
        self.frame_stack@
    }

    pub closed spec fn map(&self) -> Map<u64, HardwareID> {
        self.pad_map@
    }

    pub closed spec fn wf(&self) -> bool {
        &&& frames_in_range(self.frame_stack@)
        &&& self.current_event_id is None ==> self.frame_stack@.len() == 0
        &&& self.current_event_id matches Some(id) ==> self.frame_stack@.len() > 0 && forall|i: int|
            0 <= i < self.frame_stack@.len() ==> (#[trigger] self.frame_stack@[i]).header.event_id == id
    }

    /// What a well-formed builder holds: frames exactly when an event id is
    /// being built, and all of them of that id.
    pub proof fn lemma_held_frames(&self)
        requires
            self.wf(),
        ensures
            self.current() is None <==> self.frames().len() == 0,
            self.current() matches Some(id) ==> forall|i: int|
                0 <= i < self.frames().len() ==> (#[trigger] self.frames()[i]).header.event_id == id,
    {
    }

    pub fn new(pad_map: GetChannelMap) -> (r: Self)
        ensures
            r.wf(),
            r.current() is None,
            r.frames().len() == 0,
            r.map() == pad_map@,
    {
        EventBuilder { current_event_id: None, pad_map, frame_stack: Vec::new() }
    }

    /// Number of frames of the event being built.
    pub fn frames_held(&self) -> (r: usize)
        ensures
            r == self.frames().len(),
    {
        self.frame_stack.len()
    }

    fn build(&self) -> (r: Event)
        requires
            self.wf(),
            self.frame_stack@.len() > 0,
        ensures
            built_from(r, self.map(), self.frames()),
            r.nframes == self.frames().len(),
    {
        proof {
            lemma_no_mismatch(self.frame_stack@, self.frame_stack@[0].header.event_id, 0);
        }
        match Event::new(&self.pad_map, &self.frame_stack) {
            Ok(e) => e,
            Err(_) => {
                proof {
                    assert(false);
                }
                Event::new(&self.pad_map, &self.frame_stack).unwrap()
            },
        }
    }

    /// Adds a frame. A frame of an earlier event than the one being built is
    /// refused; one of a later event completes the current event, which is
    /// returned, and starts the next; one of the same event is kept.
    pub fn append_frame(&mut self, frame: GrawFrame) -> (r: Result<Option<Event>, EventBuilderError>)
        requires
            old(self).wf(),
            data_in_range(frame.data@),
            old(self).frames().len() < usize::MAX,
        ensures
            final(self).wf(),
            final(self).map() == old(self).map(),
            match old(self).current() {
                None => r == Ok::<Option<Event>, EventBuilderError>(None) && final(self).current() == Some(
                    frame.header.event_id,
                ) && final(self).frames() == seq![frame],
                Some(cur) => if frame.header.event_id < cur {
                    r == Err::<Option<Event>, EventBuilderError>(
                        EventBuilderError::EventOutOfOrder(frame.header.event_id, cur),
                    ) && final(self).current() == old(self).current() && final(self).frames()
                        == old(self).frames()
                } else if frame.header.event_id > cur {
                    &&& r matches Ok(Some(e)) && built_from(e, old(self).map(), old(self).frames())
                        && e.event_id == cur
                    &&& final(self).current() == Some(frame.header.event_id)
                    &&& final(self).frames() == seq![frame]
                } else {
                    r == Ok::<Option<Event>, EventBuilderError>(None) && final(self).current()
                        == old(self).current() && final(self).frames() == old(self).frames().push(frame)
                },
            },
    {
        proof {
            assert forall|j: int| 0 <= j < frame.data@.len() implies (#[trigger] frame.data@[j]).time_bucket_id
                < 512 by {
                assert(crate::graw_frame::datum_error(frame.data@[j]) is None);
            }
        }
        let id = frame.header.event_id;
        match self.current_event_id {
            None => {
                self.current_event_id = Some(id);
                self.frame_stack.push(frame);
                assert(self.frame_stack@ =~= seq![frame]);
                Ok(None)
            },
            Some(cur) => {
                if id < cur {
                    Err(EventBuilderError::EventOutOfOrder(id, cur))
                } else if id > cur {
                    let event = self.build();
                    self.frame_stack.clear();
                    self.current_event_id = Some(id);
                    self.frame_stack.push(frame);
                    assert(self.frame_stack@ =~= seq![frame]);
                    Ok(Some(event))
                } else {
                    self.frame_stack.push(frame);
                    Ok(None)
                }
            },
        }
    }

    /// The event of the frames still held, if any; used at the end of a run.
    pub fn flush_final_event(&mut self) -> (r: Option<Event>)
        requires
            old(self).wf(),
        ensures
            *final(self) == *old(self),
            old(self).frames().len() == 0 <==> r is None,
            r matches Some(e) ==> built_from(e, old(self).map(), old(self).frames())
                && old(self).current() == Some(e.event_id),
    {
        if !self.frame_stack.is_empty() {
            Some(self.build())
        } else {
            None
        }
    }
}

/// Every event an event builder hands out has a trace of exactly 512
/// samples, one per time bucket, for each channel it holds.
pub proof fn lemma_built_traces_full_length(e: Event, map: Map<u64, HardwareID>, frames: Seq<GrawFrame>)
    requires
        built_from(e, map, frames),
    ensures
        forall|k: u64| #[trigger] e.traces.traces().contains_key(k) ==> e.traces.traces()[k].1.len() == 512,
{
    e.traces.lemma_traces_full_length();
}

} // verus!
