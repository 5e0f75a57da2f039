//! The tracker task's state: it collects forwarded pixel changes and hands out the
//! collected batch on each tick.

use vstd::prelude::*;

use crate::pixmap::{max_pixels, PixmapError};
use crate::pixmap_actor::SetPixelMsg;
use crate::tracker::{change_of, lists_changes, TrackedChange, Tracker};

verus! {

/// The pixel update that a tracked change stands for.
pub open spec fn update_of(c: TrackedChange) -> SetPixelMsg {
    SetPixelMsg { x: c.coordinates.0, y: c.coordinates.1, color: c.color }
}

/// `batch` holds the updates of exactly the tracked changes `m`, one per pixel.
pub open spec fn is_batch_of(batch: Seq<SetPixelMsg>, m: Map<nat, TrackedChange>) -> bool {
    exists|s: Seq<TrackedChange>| lists_changes(s, m) && batch == s.map_values(|c| update_of(c))
}

/// Wraps a [`Tracker`] for a pixmap of fixed dimensions.
pub struct TrackerActor {
    tracker: Tracker,
}

impl TrackerActor {
    pub closed spec fn wf(&self) -> bool {
        self.tracker.wf()
    }

    pub closed spec fn pending(&self) -> Map<nat, TrackedChange> {
        self.tracker@
    }

    pub closed spec fn width(&self) -> nat {
        self.tracker.width()
    }

    pub closed spec fn height(&self) -> nat {
        self.tracker.height()
    }

    /// A tracker for pixmaps of the given dimensions.
    pub fn new(pixmap_width: usize, pixmap_height: usize) -> (r: TrackerActor)
        requires
            pixmap_width * pixmap_height <= max_pixels(),
        ensures
            r.wf(),
            r.width() == pixmap_width,
            r.height() == pixmap_height,
            r.pending() == Map::<nat, TrackedChange>::empty(),
    {
        TrackerActor { tracker: Tracker::new(pixmap_width, pixmap_height) }
    }

    /// Record a pixel change; one outside the pixmap is refused.
    pub fn handle_set_pixel(&mut self, msg: SetPixelMsg) -> (r: Result<(), PixmapError>)
        requires
            old(self).wf(),
        ensures
            final(self).wf(),
            final(self).width() == old(self).width(),
            final(self).height() == old(self).height(),
            msg.x < old(self).width() && msg.y < old(self).height() ==> r is Ok
                && final(self).pending() == old(self).pending().insert(
                (msg.y * old(self).width() + msg.x) as nat,
                change_of(old(self).width() as int, msg.x, msg.y, msg.color),
            ),
            !(msg.x < old(self).width() && msg.y < old(self).height()) ==> r == Err::<
                (),
                PixmapError,
            >(PixmapError::OutOfBounds) && final(self).pending() == old(self).pending(),
    {
        let (w, h) = self.tracker.get_size();
        if msg.x < w && msg.y < h {
            self.tracker.add(msg.x, msg.y, msg.color);
            Ok(())
        } else {
            Err(PixmapError::OutOfBounds)
        }
    }

    /// The updates collected since the last tick, one per changed pixel; the tracker
    /// starts over empty.
    pub fn handle_trigger_updates(&mut self) -> (r: Vec<SetPixelMsg>)
        requires
            old(self).wf(),
        ensures
            final(self).wf(),
            final(self).width() == old(self).width(),
            final(self).height() == old(self).height(),
            final(self).pending() == Map::<nat, TrackedChange>::empty(),
            is_batch_of(r@, old(self).pending()),
    {
        let changes = self.tracker.get_changes();
        let mut out: Vec<SetPixelMsg> = Vec::new();
        let mut i: usize = 0;
        while i < changes.len()
            invariant
                i <= changes@.len(),
                out@ =~= changes@.take(i as int).map_values(|c| update_of(c)),
            decreases changes@.len() - i,
        {
            let c = changes[i];
            out.push(SetPixelMsg { x: c.coordinates.0, y: c.coordinates.1, color: c.color });
            i = i + 1;
        }
        assert(changes@.take(changes@.len() as int) =~= changes@);
        out
    }

    /// Forget all collected changes, as on a restart.
    pub fn restarting(&mut self)
        requires
            old(self).wf(),
        ensures
            final(self).wf(),
            final(self).width() == old(self).width(),
            final(self).height() == old(self).height(),
            final(self).pending() == Map::<nat, TrackedChange>::empty(),
    {
        self.tracker.clear();
    }
}

} // verus!
