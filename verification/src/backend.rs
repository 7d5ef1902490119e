//! Events that the back end sends to the front end.

use vstd::prelude::*;

use crate::ea::{EA, SegId};

verus! {

/// Kinds of changes that occur on a segment's span map.
#[derive(Debug, Copy, Clone, PartialEq, Eq, Structural)]
pub enum SegmentChangedEvent {
    /// This is a new span.
    Add,
    /// The span was deleted.
    Remove,
    /// An existing span was changed in some way.
    Change,
}

/// Kinds of events the backend can notify the frontend of.
#[derive(Copy, Clone, Debug, PartialEq, Eq, Structural)]
pub enum BackendEvent {
    /// Sent right after the backend is created, when the image has been loaded. `start_ea` is the
    /// address of the starting point of the program, so the UI can focus it.
    ImageLoaded { start_ea: EA },
    /// A segment's span map changed.
    SegmentChanged {
        /// The EA of the span which changed.
        ea: EA,
        /// What kind of change it was.
        ev: SegmentChangedEvent,
    },
    /// Automatic analysis started (when `true`) or ended (when `false`). It won't respond to
    /// commands until the automatic analysis ends.
    AutoAnalysisStatus { running: bool },
}

/// The event that reports a change of kind `ev` to the span at offset `offs` of
/// segment `seg`.
pub fn segment_changed_event(seg: SegId, offs: usize, ev: SegmentChangedEvent) -> (r: BackendEvent)
    ensures
        r == (BackendEvent::SegmentChanged { ea: EA { seg, offs }, ev }),
{
    BackendEvent::SegmentChanged { ea: EA::new(seg, offs), ev }
}

/// The events that bracket a run of the analysis queue: its start, then its end.
pub fn analysis_status_events() -> (r: (BackendEvent, BackendEvent))
    ensures
        r.0 == (BackendEvent::AutoAnalysisStatus { running: true }),
        r.1 == (BackendEvent::AutoAnalysisStatus { running: false }),
{
    (BackendEvent::AutoAnalysisStatus { running: true }, BackendEvent::AutoAnalysisStatus { running: false })
}

} // verus!
