//! What to do with each FRIBDAQ ring item of a run.
use vstd::prelude::*;

use crate::error::EvtItemError;
use crate::ring_item::{
    begin_matches, begin_ok, end_matches, physics_spec, scalers_matches, scalers_ok, strip_boundaries,
    BeginRunItem, EndRunItem, PhysicsItem, RingItem, RingType, RunInfo, ScalersItem,
};

verus! {

/// What the caller is to do after a ring item was taken in.
#[derive(Debug, Clone)]
pub enum FribAction {
    /// Nothing to write (dummy and counter items).
    Skip,
    /// A begin-run record was stored in `run_info`.
    BeginRun,
    /// An end-run record was stored in `run_info`: write the run info; the
    /// run's FRIB data ends here.
    EndRun,
    /// Write these scalers under this scaler counter.
    Scalers(ScalersItem, u64),
    /// Write this physics item under this event counter.
    Physics(PhysicsItem, u64),
    /// A ring item of unknown type, to be reported and skipped.
    Unrecognized,
}

/// Run info and the two counters of the FRIB data of one run.
#[derive(Debug, Clone)]
pub struct FribBuilder {
    pub run_info: RunInfo,
    pub scaler_counter: u64,
    pub event_counter: u64,
}

impl FribBuilder {
    pub fn new() -> (r: FribBuilder)
        ensures
            r.scaler_counter == 0,
            r.event_counter == 0,
            r.run_info.begin.run == 0,
            r.run_info.begin.start == 0,
            r.run_info.begin.title@.len() == 0,
            r.run_info.end.stop == 0,
            r.run_info.end.time == 0,
    {
        FribBuilder { run_info: RunInfo::new(), scaler_counter: 0, event_counter: 0 }
    }

    /// Takes in one ring item: begin and end records go into `run_info`,
    /// scalers and physics items (the latter with VME buffer boundaries
    /// removed) are numbered from their own counters, from 0. A decoding
    /// failure is returned as is.
    pub fn process_ring(&mut self, ring: RingItem) -> (r: Result<FribAction, EvtItemError>)
        requires
            old(self).scaler_counter < u64::MAX,
            old(self).event_counter < u64::MAX,
        ensures
            r is Err ==> r == Err::<FribAction, EvtItemError>(EvtItemError::IOError),
            ring.ring_type == RingType::BeginRun ==> {
                &&& r is Ok <==> begin_ok(ring.bytes@)
                &&& r is Ok ==> r == Ok::<FribAction, EvtItemError>(FribAction::BeginRun)
                    && begin_matches(ring.bytes@, final(self).run_info.begin)
                    && final(self).run_info.end == old(self).run_info.end
                &&& final(self).scaler_counter == old(self).scaler_counter
                &&& final(self).event_counter == old(self).event_counter
            },
            ring.ring_type == RingType::EndRun ==> {
                &&& r is Ok <==> ring.bytes@.len() >= 8
                &&& r is Ok ==> r == Ok::<FribAction, EvtItemError>(FribAction::EndRun)
                    && end_matches(ring.bytes@, final(self).run_info.end)
                    && final(self).run_info.begin == old(self).run_info.begin
                &&& final(self).scaler_counter == old(self).scaler_counter
                &&& final(self).event_counter == old(self).event_counter
            },
            ring.ring_type == RingType::Scalers ==> {
                &&& r is Ok <==> scalers_ok(ring.bytes@)
                &&& r matches Ok(a) ==> a matches FribAction::Scalers(item, c) && c
                    == old(self).scaler_counter && scalers_matches(ring.bytes@, item)
                &&& final(self).scaler_counter == old(self).scaler_counter + (if r is Ok {
                    1int
                } else {
                    0int
                })
                &&& final(self).event_counter == old(self).event_counter
                &&& final(self).run_info == old(self).run_info
            },
            ring.ring_type == RingType::Physics ==> {
                &&& r is Ok <==> physics_spec(strip_boundaries(ring.bytes@)) is Some
                &&& r matches Ok(a) ==> a matches FribAction::Physics(item, c) && c
                    == old(self).event_counter && physics_spec(strip_boundaries(ring.bytes@))
                    == Some(item@)
                &&& final(self).event_counter == old(self).event_counter + (if r is Ok {
                    1int
                } else {
                    0int
                })
                &&& final(self).scaler_counter == old(self).scaler_counter
                &&& final(self).run_info == old(self).run_info
            },
            ring.ring_type == RingType::Dummy || ring.ring_type == RingType::Counter ==> r
                == Ok::<FribAction, EvtItemError>(FribAction::Skip) && *final(self) == *old(self),
            ring.ring_type == RingType::Invalid ==> r == Ok::<FribAction, EvtItemError>(
                FribAction::Unrecognized,
            ) && *final(self) == *old(self),
    {
        let mut ring = ring;
        match ring.ring_type {
            RingType::BeginRun => {
                let begin = BeginRunItem::decode(&ring)?;
                self.run_info.begin = begin;
                Ok(FribAction::BeginRun)
            },
            RingType::EndRun => {
                let end = EndRunItem::decode(&ring)?;
                self.run_info.end = end;
                Ok(FribAction::EndRun)
            },
            RingType::Scalers => {
                let item = ScalersItem::decode(&ring)?;
                let c = self.scaler_counter;
                self.scaler_counter = c + 1;
                Ok(FribAction::Scalers(item, c))
            },
            RingType::Physics => {
                ring.remove_boundaries();
                let item = PhysicsItem::decode(&ring)?;
                let c = self.event_counter;
                self.event_counter = c + 1;
                Ok(FribAction::Physics(item, c))
            },
            RingType::Dummy => Ok(FribAction::Skip),
            RingType::Counter => Ok(FribAction::Skip),
            RingType::Invalid => Ok(FribAction::Unrecognized),
        }
    }
}

} // verus!
