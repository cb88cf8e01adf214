//! The frame queue of one input video.
use vstd::prelude::*;

use std::collections::VecDeque;

use crate::geometry::VideoPosition;

verus! {

/// Timestamps of the frames of a queue, in queue order.
pub open spec fn timestamps<F>(q: Seq<(u64, F)>) -> Seq<u64> {
    q.map_values(|e: (u64, F)| e.0)
}

/// The timestamps of `q` never decrease from front to back.
pub open spec fn ordered<F>(q: Seq<(u64, F)>) -> bool {
    forall|i: int, j: int| 0 <= i <= j < q.len() ==> #[trigger] q[i].0 <= #[trigger] q[j].0
}

/// What is left of `q` once the frames at its front older than `start` are retired.
pub open spec fn skip_before<F>(q: Seq<(u64, F)>, start: u64) -> Seq<(u64, F)>
    decreases q.len(),
{
    if q.len() > 0 && q[0].0 < start {
        skip_before(q.drop_first(), start)
    } else {
        q
    }
}

/// A timestamp lies in the window that starts at `start` and lasts `period`; with no start,
/// every timestamp does.
pub open spec fn in_window(pts: u64, start: Option<u64>, period: u64) -> bool {
    match start {
        None => true,
        Some(s) => s <= pts < s + period,
    }
}

/// A queue that waits to be drawn: the frame at its front is the next one drawn.
pub open spec fn pending_after_retire<F>(q: Seq<(u64, F)>, start: Option<u64>) -> Seq<(u64, F)> {
    match start {
        None => q,
        Some(s) => skip_before(q, s),
    }
}

/// The frame drawn from queue `q` for the window at `start` lasting `period`, if any.
pub open spec fn drawn_frame<F>(q: Seq<(u64, F)>, start: Option<u64>, period: u64) -> Option<
    (u64, F),
> {
    let rest = pending_after_retire(q, start);
    if rest.len() > 0 && in_window(rest[0].0, start, period) {
        Some(rest[0])
    } else {
        None
    }
}

/// The queue left once the window at `start` lasting `period` has been drawn.
pub open spec fn queue_after_draw<F>(q: Seq<(u64, F)>, start: Option<u64>, period: u64) -> Seq<
    (u64, F),
> {
    let rest = pending_after_retire(q, start);
    if rest.len() > 0 && in_window(rest[0].0, start, period) {
        rest.drop_first()
    } else {
        rest
    }
}

/// Retiring frames from an ordered queue leaves an ordered suffix of it whose front, if any,
/// is not older than `start`.
pub proof fn lemma_skip_before<F>(q: Seq<(u64, F)>, start: u64)
    requires
        ordered(q),
    ensures
        ordered(skip_before(q, start)),
        skip_before(q, start).len() <= q.len(),
        skip_before(q, start) == q.subrange(q.len() - skip_before(q, start).len(), q.len() as int),
        skip_before(q, start).len() > 0 ==> skip_before(q, start)[0].0 >= start,
    decreases q.len(),
{
    if q.len() > 0 && q[0].0 < start {
        let t = q.drop_first();
        assert(ordered(t)) by {
            assert forall|i: int, j: int| 0 <= i <= j < t.len() implies #[trigger] t[i].0
                <= #[trigger] t[j].0 by {
                assert(t[i] == q[i + 1] && t[j] == q[j + 1]);
            }
        }
        lemma_skip_before(t, start);
        let r = skip_before(t, start);
        assert(r == t.subrange(t.len() - r.len(), t.len() as int));
        assert(r =~= q.subrange(q.len() - r.len(), q.len() as int));
    } else {
        assert(q =~= q.subrange(0, q.len() as int));
    }
}

/// The buffered frames of one input video, with the placement at which they are drawn.
pub struct InputVideo<F> {
    frames: VecDeque<(u64, F)>,
    last_uploaded: Option<u64>,
    position: VideoPosition,
}

impl<F> InputVideo<F> {
    /// The frames waiting to be drawn, front first.
    pub closed spec fn queue(&self) -> Seq<(u64, F)> {
        self.frames@
    }

    /// The timestamp of the most recently uploaded frame, drawn or not.
    pub closed spec fn last_uploaded_spec(&self) -> Option<u64> {
        self.last_uploaded
    }

    /// The placement of this video.
    pub closed spec fn position_spec(&self) -> VideoPosition {
        self.position
    }

    /// Queued frames are in timestamp order, none newer than the last upload.
    pub open spec fn wf(&self) -> bool {
        &&& ordered(self.queue())
        &&& self.queue().len() > 0 ==> self.last_uploaded_spec() == Some(
            self.queue().last().0,
        )
    }

    /// Timestamp of the frame at the front, if any.
    pub open spec fn front_spec(&self) -> Option<u64> {
        if self.queue().len() > 0 {
            Some(self.queue()[0].0)
        } else {
            None
        }
    }

    /// The smallest timestamp the front of this queue can have from now on:
    /// the front's own, else the last upload's, else -1 when nothing was ever uploaded.
    pub open spec fn front_floor(&self) -> int {
        match self.front_spec() {
            Some(p) => p as int,
            None => match self.last_uploaded_spec() {
                Some(l) => l as int,
                None => -1,
            },
        }
    }

    /// A new, empty queue for a video drawn at `position`.
    pub fn new(position: VideoPosition) -> (r: InputVideo<F>)
        ensures
            r.wf(),
            r.queue() == Seq::<(u64, F)>::empty(),
            r.last_uploaded_spec() == None::<u64>,
            r.position_spec() == position,
    {
        InputVideo { frames: VecDeque::new(), last_uploaded: None, position }
    }

    /// The placement of this video.
    pub fn position(&self) -> (r: VideoPosition)
        ensures
            r == self.position_spec(),
    {
        self.position
    }

    /// Timestamp of the oldest frame not yet drawn or retired; `None` when starved.
    pub fn front_pts(&self) -> (r: Option<u64>)
        ensures
            r == self.front_spec(),
    {
        if self.frames.len() > 0 {
            Some(self.frames[0].0)
        } else {
            None
        }
    }

    /// Timestamp of the most recently uploaded frame.
    pub fn last_uploaded_pts(&self) -> (r: Option<u64>)
        ensures
            r == self.last_uploaded_spec(),
    {
        self.last_uploaded
    }

    /// Appends a frame. Timestamps of one video must not go backwards.
    pub fn upload(&mut self, pts: u64, frame: F)
        requires
            old(self).wf(),
            old(self).last_uploaded_spec() is Some ==> old(self).last_uploaded_spec()->0 <= pts,
        ensures
            final(self).wf(),
            final(self).queue() == old(self).queue().push((pts, frame)),
            final(self).last_uploaded_spec() == Some(pts),
            final(self).position_spec() == old(self).position_spec(),
            final(self).front_floor() >= old(self).front_floor(),
    {
        self.frames.push_back((pts, frame));
        self.last_uploaded = Some(pts);
        proof {
            let q = self.queue();
            assert forall|i: int, j: int| 0 <= i <= j < q.len() implies #[trigger] q[i].0
                <= #[trigger] q[j].0 by {
                if j == q.len() - 1 && i < j {
                    assert(old(self).queue()[i].0 <= old(self).queue().last().0);
                }
                if j < q.len() - 1 {
                    assert(q[i] == old(self).queue()[i] && q[j] == old(self).queue()[j]);
                }
            }
            if old(self).queue().len() > 0 {
                assert(q[0] == old(self).queue()[0]);
            }
        }
    }

    /// Draws from this video for the window that starts at `start` (none before the first
    /// output frame) and lasts `period`: retires the frames older than the window, then takes
    /// the front frame out and returns it if its timestamp lies in the window.
    pub fn draw(&mut self, start: Option<u64>, period: u64) -> (r: Option<(u64, F)>)
        requires
            old(self).wf(),
        ensures
            final(self).wf(),
            r == drawn_frame(old(self).queue(), start, period),
            final(self).queue() == queue_after_draw(old(self).queue(), start, period),
            final(self).last_uploaded_spec() == old(self).last_uploaded_spec(),
            final(self).position_spec() == old(self).position_spec(),
            final(self).front_floor() >= old(self).front_floor(),
    {
        let ghost q0 = self.queue();
        if let Some(s) = start {
            while self.frames.len() > 0 && self.frames[0].0 < s
                invariant
                    self.wf(),
                    ordered(q0),
                    skip_before(self.queue(), s) == skip_before(q0, s),
                    self.last_uploaded == old(self).last_uploaded,
                    self.position == old(self).position,
                    self.front_floor() >= old(self).front_floor(),
                decreases self.frames@.len(),
            {
                let ghost before = self.queue();
                let _ = self.frames.pop_front();
                proof {
                    assert(self.queue() =~= before.drop_first());
                    let q = self.queue();
                    assert forall|i: int, j: int| 0 <= i <= j < q.len() implies #[trigger] q[i].0
                        <= #[trigger] q[j].0 by {
                        assert(q[i] == before[i + 1] && q[j] == before[j + 1]);
                    }
                    if q.len() > 0 {
                        assert(q.last() == before.last());
                        assert(before[0].0 <= q[0].0);
                    }
                }
            }
            proof {
                assert(skip_before(self.queue(), s) == self.queue());
            }
        }
        let ghost rest = self.queue();
        if self.frames.len() > 0 {
            let p = self.frames[0].0;
            let take = match start {
                None => true,
                Some(s) => s <= p && p - s < period,
            };
            if take {
                let r = self.frames.pop_front();
                proof {
                    assert(self.queue() =~= rest.drop_first());
                    let q = self.queue();
                    assert forall|i: int, j: int| 0 <= i <= j < q.len() implies #[trigger] q[i].0
                        <= #[trigger] q[j].0 by {
                        assert(q[i] == rest[i + 1] && q[j] == rest[j + 1]);
                    }
                    if q.len() > 0 {
                        assert(q.last() == rest.last());
                        assert(rest[0].0 <= q[0].0);
                    }
                }
                return r;
            }
        }
        None
    }
}

} // verus!
