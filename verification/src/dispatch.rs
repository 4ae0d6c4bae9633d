//! Decisions of the daemon's event loop: what each event from the bus asks
//! of the media daemon.

use vstd::prelude::*;
use crate::event_bus::{DashcamEvent, EventType};
use crate::loop_writer::{WriterSignals, tag_preroll, flush_and_checkpoint};

verus! {

/// What the event loop does after an event.
#[derive(Debug, Clone, Copy, PartialEq, Eq, Structural)]
pub enum DispatchAction {
    /// Keep waiting for events.
    Continue,
    /// Publish a suspend acknowledgement and leave the loop.
    AcknowledgeSuspend,
}

/// The clip id a collision event tags for preservation: the reported clip,
/// or 0 when the event carries no report.
pub open spec fn spec_collision_clip(evt: DashcamEvent) -> u32 {
    match evt.collision {
        Some(c) => c.clip_id,
        None => 0,
    }
}

/// Handles one received event: a collision tags its clip's pre-roll for
/// preservation; a suspend request asks the writer to checkpoint and ends
/// the loop with an acknowledgement; every other event is ignored.
pub fn dispatch_event(evt: &DashcamEvent, signals: &mut WriterSignals) -> (action: DispatchAction)
    ensures
        evt.event_type == EventType::CollisionDetected ==> {
            &&& action == DispatchAction::Continue
            &&& final(signals).tagged_clip_id == spec_collision_clip(*evt)
            &&& final(signals).flush_requested == old(signals).flush_requested
        },
        evt.event_type == EventType::SuspendRequested ==> {
            &&& action == DispatchAction::AcknowledgeSuspend
            &&& final(signals).flush_requested
            &&& final(signals).tagged_clip_id == old(signals).tagged_clip_id
        },
        evt.event_type != EventType::CollisionDetected && evt.event_type != EventType::SuspendRequested ==> {
            &&& action == DispatchAction::Continue
            &&& *final(signals) == *old(signals)
        },
{
    match evt.event_type {
        EventType::CollisionDetected => {
            let clip_id = match &evt.collision {
                Some(c) => c.clip_id,
                None => 0,
            };
            tag_preroll(signals, clip_id);
            DispatchAction::Continue
        },
        EventType::SuspendRequested => {
            flush_and_checkpoint(signals);
            DispatchAction::AcknowledgeSuspend
        },
        _ => DispatchAction::Continue,
    }
}

} // verus!
