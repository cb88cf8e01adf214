//! Properties that hold across calls of the compositor's operations, stated over the
//! spec functions that their contracts use.
use vstd::prelude::*;

use crate::compositor::{anchor_value, drawn_frames, latest, latest_pts, State};
use crate::stream::{lemma_skip_before, ordered, pending_after_retire, queue_after_draw, timestamps, InputVideo};

verus! {

/// The frames queued for a video keep their upload order, which never goes back in time.
pub proof fn lemma_queued_timestamps_ordered<F>(v: InputVideo<F>, i: int, j: int)
    requires
        v.wf(),
        0 <= i <= j < v.queue().len(),
    ensures
        timestamps(v.queue())[i] <= timestamps(v.queue())[j],
{
    assert(ordered(v.queue()));
    assert(v.queue()[i].0 <= v.queue()[j].0);
}

/// The front timestamp of a video never goes back: an upload (`push`) keeps the front, and
/// a draw (`queue_after_draw`) leaves a front no older than before, for any window.
pub proof fn lemma_front_never_regresses<F>(
    q: Seq<(u64, F)>,
    e: (u64, F),
    start: Option<u64>,
    period: u64,
)
    requires
        ordered(q),
        q.len() > 0,
    ensures
        q.push(e)[0] == q[0],
        queue_after_draw(q, start, period).len() > 0 ==> q[0].0 <= queue_after_draw(
            q,
            start,
            period,
        )[0].0,
{
    let rest = pending_after_retire(q, start);
    match start {
        None => {
            assert(rest == q);
        },
        Some(s) => {
            lemma_skip_before(q, s);
        },
    }
    assert(ordered(rest));
    assert(rest == q.subrange(q.len() - rest.len(), q.len() as int));
    let after = queue_after_draw(q, start, period);
    if after.len() > 0 {
        if after == rest.drop_first() {
            assert(after[0] == rest[1]);
            assert(rest[1] == q[q.len() - rest.len() + 1]);
            assert(q[0].0 <= q[q.len() - rest.len() + 1].0);
        } else {
            assert(after == rest);
            assert(rest[0] == q[q.len() - rest.len()]);
            assert(q[0].0 <= q[q.len() - rest.len()].0);
        }
    }
}

/// The timestamp `draw_into` returns from any state is never below the one the previous
/// tick returned and left as the anchor.
pub proof fn lemma_draw_anchor_never_decreases<F>(s: State<F>, period: u64)
    ensures
        anchor_value(
            latest(
                s.last_pts_spec(),
                latest_pts(drawn_frames(s.videos(), s.last_pts_spec(), period)),
            ),
        ) >= anchor_value(s.last_pts_spec()),
{
}

/// With no active video every tick is ready.
pub proof fn lemma_ready_without_videos<F>(s: State<F>, period: u64)
    requires
        s.videos().len() == 0,
    ensures
        s.frames_ready(period),
{
}

} // verus!
