//! The compositor's state: the active input videos, the synchronisation anchor, and the
//! per-tick choice of the frames to draw.
use vstd::prelude::*;

use crate::errors::CompositorError;
use crate::formats::{
    chroma_height, chroma_width, download, frame_len, packed_frame, padded_row, valid_resolution,
    RawVideo,
};
use crate::geometry::{covers, VideoPosition};
use crate::scene::{Scene, VideoId};
use crate::stream::{drawn_frame, in_window, queue_after_draw, InputVideo};

verus! {

broadcast use vstd::std_specs::hash::group_hash_axioms;

/// A frame chosen to be drawn in a tick, with the video it comes from.
pub struct DrawnFrame<F> {
    pub idx: usize,
    pub position: VideoPosition,
    pub pts: u64,
    pub frame: F,
}

/// The ids of a list of videos are in strictly increasing order.
pub open spec fn ids_increasing<F>(v: Seq<(usize, InputVideo<F>)>) -> bool {
    forall|i: int, j: int| 0 <= i < j < v.len() ==> #[trigger] v[i].0 < #[trigger] v[j].0
}

/// The frames drawn from the videos `v`, in order, for the window at `start` of `period`.
pub open spec fn drawn_frames<F>(v: Seq<(usize, InputVideo<F>)>, start: Option<u64>, period: u64) -> Seq<
    DrawnFrame<F>,
>
    decreases v.len(),
{
    if v.len() == 0 {
        Seq::empty()
    } else {
        let last = v.last();
        let prev = drawn_frames(v.drop_last(), start, period);
        match drawn_frame(last.1.queue(), start, period) {
            Some(f) => prev.push(
                DrawnFrame { idx: last.0, position: last.1.position_spec(), pts: f.0, frame: f.1 },
            ),
            None => prev,
        }
    }
}

/// The later of two optional timestamps, where none is earlier than any.
pub open spec fn latest(a: Option<u64>, b: Option<u64>) -> Option<u64> {
    match (a, b) {
        (None, _) => b,
        (_, None) => a,
        (Some(x), Some(y)) => Some(if x >= y { x } else { y }),
    }
}

/// The latest timestamp among `frames`, if any.
pub open spec fn latest_pts<F>(frames: Seq<DrawnFrame<F>>) -> Option<u64>
    decreases frames.len(),
{
    if frames.len() == 0 {
        None
    } else {
        latest(latest_pts(frames.drop_last()), Some(frames.last().pts))
    }
}

/// The timestamp an optional anchor stands for: zero before the first output frame.
pub open spec fn anchor_value(a: Option<u64>) -> u64 {
    match a {
        Some(p) => p,
        None => 0,
    }
}

/// `k` is the index in `v` of the first video whose id is not below `idx`.
pub open spec fn insertion_point<F>(v: Seq<(usize, InputVideo<F>)>, idx: usize, k: int) -> bool {
    &&& 0 <= k <= v.len()
    &&& forall|i: int| 0 <= i < k ==> #[trigger] v[i].0 < idx
    &&& forall|i: int| k <= i < v.len() ==> #[trigger] v[i].0 >= idx
}

/// Two videos of a list with increasing ids and the same id are the same entry.
pub proof fn lemma_unique_id<F>(v: Seq<(usize, InputVideo<F>)>, i: int, j: int)
    requires
        ids_increasing(v),
        0 <= i < v.len(),
        0 <= j < v.len(),
        v[i].0 == v[j].0,
    ensures
        i == j,
{
    if i < j {
        assert(v[i].0 < v[j].0);
    }
    if j < i {
        assert(v[j].0 < v[i].0);
    }
}

/// Of the frames drawn in order, the one at `k` is what the output pixel (x, y) shows: it
/// covers the pixel, and every other frame that does is behind it (larger `z`) or has the
/// same `z` and was drawn later, so that it fails the strict depth comparison.
pub open spec fn shows_at<F>(frames: Seq<DrawnFrame<F>>, k: int, x: int, y: int) -> bool {
    &&& 0 <= k < frames.len()
    &&& covers(frames[k].position, x, y)
    &&& forall|j: int|
        0 <= j < frames.len() && covers(#[trigger] frames[j].position, x, y) ==> frames[k].position.z
            < frames[j].position.z || (frames[k].position.z == frames[j].position.z && k <= j)
}

/// Which of the frames drawn in order, if any, the output pixel (x, y) shows, given a depth
/// buffer cleared to the farthest value and a strict less-than depth test.
pub fn visible_frame_at<F>(frames: &Vec<DrawnFrame<F>>, x: u32, y: u32) -> (r: Option<usize>)
    ensures
        r is None <==> forall|j: int|
            0 <= j < frames@.len() ==> !covers(#[trigger] frames@[j].position, x as int, y as int),
        r is Some ==> shows_at(frames@, r->0 as int, x as int, y as int),
{
    let mut best: Option<usize> = None;
    let mut i: usize = 0;
    while i < frames.len()
        invariant
            i <= frames@.len(),
            best is None ==> forall|j: int|
                0 <= j < i ==> !covers(#[trigger] frames@[j].position, x as int, y as int),
            best is Some ==> shows_at(frames@.take(i as int), best->0 as int, x as int, y as int),
        decreases frames@.len() - i,
    {
        if frames[i].position.covers(x, y) {
            let better = match best {
                None => true,
                Some(b) => frames[i].position.z < frames[b].position.z,
            };
            if better {
                best = Some(i);
            }
        }
        proof {
            let t = frames@.take(i + 1);
            let t0 = frames@.take(i as int);
            assert forall|j: int| 0 <= j <= i implies #[trigger] t[j] == frames@[j] by {}
            if best is Some {
                let b = best->0 as int;
                assert forall|j: int|
                    0 <= j < t.len() && covers(#[trigger] t[j].position, x as int, y as int) implies t[
                    b].position.z < t[j].position.z || (t[b].position.z == t[j].position.z && b
                    <= j) by {
                    if j < i {
                        assert(t0[j] == t[j]);
                    }
                }
            }
        }
        i += 1;
    }
    proof {
        assert(frames@.take(frames@.len() as int) =~= frames@);
    }
    best
}

/// The compositor's state: the active videos keyed by index, the output format, and the
/// timestamp of the last output frame.
pub struct State<F> {
    input_videos: Vec<(usize, InputVideo<F>)>,
    output_caps: RawVideo,
    last_pts: Option<u64>,
}

impl<F> State<F> {
    /// The active videos with their indexes, in increasing index order.
    pub closed spec fn videos(&self) -> Seq<(usize, InputVideo<F>)> {
        self.input_videos@
    }

    /// The timestamp of the most recently produced output frame.
    pub closed spec fn last_pts_spec(&self) -> Option<u64> {
        self.last_pts
    }

    /// The output format.
    pub closed spec fn output_caps_spec(&self) -> RawVideo {
        self.output_caps
    }

    /// A video with index `idx` is active.
    pub open spec fn has_video(&self, idx: usize) -> bool {
        exists|i: int| 0 <= i < self.videos().len() && #[trigger] self.videos()[i].0 == idx
    }

    /// Indexes are unique and ordered, every queue is well formed, the output format valid.
    pub open spec fn wf(&self) -> bool {
        &&& ids_increasing(self.videos())
        &&& forall|i: int| 0 <= i < self.videos().len() ==> #[trigger] self.videos()[i].1.wf()
        &&& self.output_caps_spec().wf()
    }

    /// The frames are ready for a tick of `period`: every active video has a front frame
    /// whose timestamp lies in the window from the last output frame.
    pub open spec fn frames_ready(&self, period: u64) -> bool {
        forall|i: int|
            0 <= i < self.videos().len() ==> {
                let f = (#[trigger] self.videos()[i]).1.front_spec();
                f is Some && in_window(f->0, self.last_pts_spec(), period)
            }
    }

    /// A compositor with no videos and no output frame yet, producing frames in
    /// `output_caps`. The format is checked first, as `RawVideo::new` checks it.
    pub fn new(output_caps: &RawVideo) -> (r: Result<State<F>, CompositorError>)
        ensures
            !valid_resolution(output_caps.pixel_format, output_caps.width as int, output_caps.height as int)
                ==> r == Err::<State<F>, CompositorError>(
                CompositorError::BadVideoResolution(output_caps.width, output_caps.height),
            ),
            valid_resolution(output_caps.pixel_format, output_caps.width as int, output_caps.height as int)
                && (output_caps.framerate.num == 0 || output_caps.framerate.den == 0) ==> r == Err::<
                State<F>,
                CompositorError,
            >(CompositorError::BadFramerate),
            r is Ok <==> output_caps.wf(),
            r is Ok ==> {
                &&& r->Ok_0.wf()
                &&& r->Ok_0.videos().len() == 0
                &&& r->Ok_0.last_pts_spec() == None::<u64>
                &&& r->Ok_0.output_caps_spec() == *output_caps
            },
    {
        let caps = RawVideo::new(
            output_caps.width,
            output_caps.height,
            output_caps.pixel_format,
            output_caps.framerate,
        )?;
        Ok(State { input_videos: Vec::new(), output_caps: caps, last_pts: None })
    }

    /// The output format.
    pub fn output_caps(&self) -> (r: RawVideo)
        ensures
            r == self.output_caps_spec(),
    {
        self.output_caps
    }

    /// The timestamp of the most recently produced output frame.
    pub fn last_pts(&self) -> (r: Option<u64>)
        ensures
            r == self.last_pts_spec(),
    {
        self.last_pts
    }

    /// Where the video with index `idx` stands in the list, if it is active.
    fn find(&self, idx: usize) -> (r: Option<usize>)
        requires
            self.wf(),
        ensures
            r is None <==> !self.has_video(idx),
            r is Some ==> r->0 < self.videos().len() && self.videos()[r->0 as int].0 == idx,
    {
        let mut i: usize = 0;
        while i < self.input_videos.len()
            invariant
                i <= self.videos().len(),
                forall|j: int| 0 <= j < i ==> #[trigger] self.videos()[j].0 != idx,
            decreases self.videos().len() - i,
        {
            if self.input_videos[i].0 == idx {
                return Some(i);
            }
            i += 1;
        }
        None
    }

    /// The timestamp of the last frame uploaded to video `idx`, or the error for an
    /// inactive index.
    pub fn last_uploaded_pts(&self, idx: usize) -> (r: Result<Option<u64>, CompositorError>)
        requires
            self.wf(),
        ensures
            !self.has_video(idx) ==> r == Err::<Option<u64>, CompositorError>(
                CompositorError::BadVideoIndex(idx),
            ),
            forall|i: int|
                0 <= i < self.videos().len() && #[trigger] self.videos()[i].0 == idx ==> r
                    == Ok::<Option<u64>, CompositorError>(self.videos()[i].1.last_uploaded_spec()),
    {
        match self.find(idx) {
            None => Err(CompositorError::BadVideoIndex(idx)),
            Some(i) => {
                proof {
                    assert forall|j: int|
                        0 <= j < self.videos().len() && #[trigger] self.videos()[j].0
                            == idx implies j == i by {
                        lemma_unique_id(self.videos(), i as int, j);
                    }
                }
                Ok(self.input_videos[i].1.last_uploaded_pts())
            },
        }
    }

    /// Appends a frame with timestamp `pts` to the queue of video `idx`. Timestamps uploaded
    /// to one video must not go backwards.
    pub fn upload_texture(&mut self, idx: usize, frame: F, pts: u64) -> (r: Result<
        (),
        CompositorError,
    >)
        requires
            old(self).wf(),
            forall|i: int|
                0 <= i < old(self).videos().len() && #[trigger] old(self).videos()[i].0 == idx
                    && old(self).videos()[i].1.last_uploaded_spec() is Some ==> old(
                    self,
                ).videos()[i].1.last_uploaded_spec()->0 <= pts,
        ensures
            final(self).wf(),
            r is Ok <==> old(self).has_video(idx),
            r is Err ==> r == Err::<(), CompositorError>(CompositorError::BadVideoIndex(idx)),
            final(self).videos().len() == old(self).videos().len(),
            forall|i: int|
                0 <= i < old(self).videos().len() && #[trigger] old(self).videos()[i].0 != idx
                    ==> final(self).videos()[i] == old(self).videos()[i],
            forall|i: int|
                0 <= i < old(self).videos().len() && #[trigger] old(self).videos()[i].0 == idx
                    ==> {
                    let (v0, v1) = (old(self).videos()[i].1, final(self).videos()[i].1);
                    &&& final(self).videos()[i].0 == idx
                    &&& v1.queue() == v0.queue().push((pts, frame))
                    &&& v1.last_uploaded_spec() == Some(pts)
                    &&& v1.position_spec() == v0.position_spec()
                    &&& v1.front_floor() >= v0.front_floor()
                },
            final(self).last_pts_spec() == old(self).last_pts_spec(),
            final(self).output_caps_spec() == old(self).output_caps_spec(),
    {
        match self.find(idx) {
            None => Err(CompositorError::BadVideoIndex(idx)),
            Some(i) => {
                self.input_videos[i].1.upload(pts, frame);
                proof {
                    assert forall|j: int|
                        0 <= j < old(self).videos().len() && #[trigger] old(self).videos()[j].0
                            == idx implies j == i by {
                        lemma_unique_id(old(self).videos(), i as int, j);
                    }
                    assert(ids_increasing(self.videos())) by {
                        assert forall|a: int, b: int|
                            0 <= a < b < self.videos().len() implies #[trigger] self.videos()[a].0
                            < #[trigger] self.videos()[b].0 by {
                            assert(old(self).videos()[a].0 < old(self).videos()[b].0);
                        }
                    }
                    assert forall|j: int| 0 <= j < self.videos().len() implies #[trigger] self.videos()[
                        j].1.wf() by {
                        if j != i {
                            assert(self.videos()[j] == old(self).videos()[j]);
                            assert(old(self).videos()[j].1.wf());
                        }
                    }
                    assert(self.output_caps_spec().wf());
                }
                Ok(())
            },
        }
    }

    /// Whether a tick of `frame_period` can be produced: every active video has a frame
    /// whose timestamp lies in the window from the last output frame (with no output frame
    /// yet, any frame will do). True when no video is active. The period is whole pts
    /// units: a fractional period is rounded up, as for `draw_into`.
    pub fn all_frames_ready(&self, frame_period: u64) -> (r: bool)
        requires
            self.wf(),
        ensures
            r == self.frames_ready(frame_period),
    {
        let mut i: usize = 0;
        while i < self.input_videos.len()
            invariant
                i <= self.videos().len(),
                forall|j: int|
                    0 <= j < i ==> {
                        let f = (#[trigger] self.videos()[j]).1.front_spec();
                        f is Some && in_window(f->0, self.last_pts_spec(), frame_period)
                    },
            decreases self.videos().len() - i,
        {
            match self.input_videos[i].1.front_pts() {
                None => return false,
                Some(p) => {
                    let ok = match self.last_pts {
                        None => true,
                        Some(s) => s <= p && p - s < frame_period,
                    };
                    if !ok {
                        return false;
                    }
                },
            }
            i += 1;
        }
        true
    }

    /// Activates a video with index `idx`, drawn at `position`, with an empty queue.
    /// An index that is already active is reported and its video left as it was.
    pub fn add_video(&mut self, idx: usize, position: VideoPosition) -> (r: Result<
        (),
        CompositorError,
    >)
        requires
            old(self).wf(),
        ensures
            final(self).wf(),
            old(self).has_video(idx) ==> r == Err::<(), CompositorError>(
                CompositorError::VideoIndexAlreadyTaken(idx),
            ) && final(self).videos() == old(self).videos(),
            !old(self).has_video(idx) ==> r == Ok::<(), CompositorError>(()),
            !old(self).has_video(idx) ==> final(self).videos().len() == old(self).videos().len() + 1,
            forall|j: usize| #[trigger]
                final(self).has_video(j) <==> (old(self).has_video(j) || j == idx),
            forall|i: int|
                !old(self).has_video(idx) && 0 <= i < final(self).videos().len()
                    && #[trigger] final(self).videos()[i].0 == idx ==> {
                    &&& final(self).videos()[i].1.queue() == Seq::<(u64, F)>::empty()
                    &&& final(self).videos()[i].1.last_uploaded_spec() == None::<u64>
                    &&& final(self).videos()[i].1.position_spec() == position
                },
            forall|k: int|
                !old(self).has_video(idx) && insertion_point(old(self).videos(), idx, k) ==> {
                    let (old_v, new_v) = (old(self).videos(), final(self).videos());
                    &&& new_v.len() == old_v.len() + 1
                    &&& new_v[k].0 == idx
                    &&& new_v[k].1.queue() == Seq::<(u64, F)>::empty()
                    &&& new_v[k].1.last_uploaded_spec() == None::<u64>
                    &&& new_v[k].1.position_spec() == position
                    &&& forall|i: int| 0 <= i < k ==> #[trigger] new_v[i] == old_v[i]
                    &&& forall|i: int| k < i < new_v.len() ==> #[trigger] new_v[i] == old_v[i - 1]
                },
            final(self).last_pts_spec() == old(self).last_pts_spec(),
            final(self).output_caps_spec() == old(self).output_caps_spec(),
    {
        let mut k: usize = 0;
        while k < self.input_videos.len() && self.input_videos[k].0 < idx
            invariant
                k <= self.videos().len(),
                forall|i: int| 0 <= i < k ==> #[trigger] self.videos()[i].0 < idx,
            decreases self.videos().len() - k,
        {
            k += 1;
        }
        proof {
            assert forall|i: int| k <= i < self.videos().len() implies #[trigger] self.videos()[i].0
                >= idx by {
                if i > k {
                    assert(self.videos()[k as int].0 < self.videos()[i].0);
                }
            }
        }
        if k < self.input_videos.len() && self.input_videos[k].0 == idx {
            return Err(CompositorError::VideoIndexAlreadyTaken(idx));
        }
        let ghost old_v = self.videos();
        self.input_videos.insert(k, (idx, InputVideo::new(position)));
        proof {
            let new_v = self.videos();
            assert forall|i: int| 0 <= i < new_v.len() && #[trigger] new_v[i].0 == idx implies i
                == k by {
                if i < k {
                    assert(old_v[i].0 < idx);
                } else if i > k {
                    assert(old_v[i - 1].0 >= idx);
                    assert(old_v[i - 1].0 != idx);
                }
            }
            assert(!old(self).has_video(idx));
            assert forall|a: int, b: int|
                0 <= a < b < new_v.len() implies #[trigger] new_v[a].0 < #[trigger] new_v[b].0 by {
                if b < k {
                    assert(old_v[a].0 < old_v[b].0);
                } else if b == k {
                } else if a < k {
                } else if a == k {
                    assert(new_v[b] == old_v[b - 1]);
                } else {
                    assert(old_v[a - 1].0 < old_v[b - 1].0);
                }
            }
            assert forall|i: int| 0 <= i < new_v.len() implies #[trigger] new_v[i].1.wf() by {
                if i < k {
                    assert(new_v[i] == old_v[i]);
                    assert(old_v[i].1.wf());
                } else if i > k {
                    assert(new_v[i] == old_v[i - 1]);
                    assert(old_v[i - 1].1.wf());
                }
            }
            assert forall|j: usize| #[trigger]
                self.has_video(j) <==> (old(self).has_video(j) || j == idx) by {
                if self.has_video(j) {
                    let i = choose|i: int| 0 <= i < new_v.len() && #[trigger] new_v[i].0 == j;
                    if i < k {
                        assert(old_v[i].0 == j);
                    } else if i > k {
                        assert(old_v[i - 1].0 == j);
                    }
                }
                if old(self).has_video(j) {
                    let i = choose|i: int| 0 <= i < old_v.len() && #[trigger] old_v[i].0 == j;
                    if i < k {
                        assert(new_v[i].0 == j);
                    } else {
                        assert(new_v[i + 1].0 == j);
                    }
                }
                if j == idx {
                    assert(new_v[k as int].0 == j);
                }
            }
            assert forall|k2: int| insertion_point(old_v, idx, k2) implies k2 == k by {
                if k2 < k {
                    assert(old_v[k2].0 < idx);
                }
                if k2 > k {
                    assert(old_v[k as int].0 < idx);
                }
            }
        }
        Ok(())
    }

    /// Deactivates the video with index `idx`, dropping its queued frames.
    pub fn remove_video(&mut self, idx: usize) -> (r: Result<(), CompositorError>)
        requires
            old(self).wf(),
        ensures
            final(self).wf(),
            r is Ok <==> old(self).has_video(idx),
            r is Err ==> r == Err::<(), CompositorError>(CompositorError::BadVideoIndex(idx))
                && final(self).videos() == old(self).videos(),
            forall|j: usize| #[trigger]
                final(self).has_video(j) <==> (old(self).has_video(j) && j != idx),
            forall|i: int|
                0 <= i < old(self).videos().len() && #[trigger] old(self).videos()[i].0 == idx
                    ==> final(self).videos() == old(self).videos().remove(i),
            final(self).last_pts_spec() == old(self).last_pts_spec(),
            final(self).output_caps_spec() == old(self).output_caps_spec(),
    {
        match self.find(idx) {
            None => Err(CompositorError::BadVideoIndex(idx)),
            Some(k) => {
                let ghost old_v = self.videos();
                let _ = self.input_videos.remove(k);
                proof {
                    let new_v = self.videos();
                    assert forall|i: int|
                        0 <= i < old_v.len() && #[trigger] old_v[i].0 == idx implies i == k by {
                        lemma_unique_id(old_v, i, k as int);
                    }
                    assert forall|a: int, b: int|
                        0 <= a < b < new_v.len() implies #[trigger] new_v[a].0
                        < #[trigger] new_v[b].0 by {
                        if b < k {
                            assert(old_v[a].0 < old_v[b].0);
                        } else if a < k {
                            assert(old_v[a].0 < old_v[b + 1].0);
                        } else {
                            assert(old_v[a + 1].0 < old_v[b + 1].0);
                        }
                    }
                    assert forall|i: int| 0 <= i < new_v.len() implies #[trigger] new_v[i].1.wf() by {
                        if i < k {
                            assert(new_v[i] == old_v[i]);
                            assert(old_v[i].1.wf());
                        } else {
                            assert(new_v[i] == old_v[i + 1]);
                            assert(old_v[i + 1].1.wf());
                        }
                    }
                    assert forall|j: usize| #[trigger]
                        self.has_video(j) <==> (old(self).has_video(j) && j != idx) by {
                        if self.has_video(j) {
                            let i = choose|i: int| 0 <= i < new_v.len() && #[trigger] new_v[i].0 == j;
                            if i < k {
                                assert(old_v[i].0 == j);
                                assert(old_v[i].0 < old_v[k as int].0);
                            } else {
                                assert(old_v[i + 1].0 == j);
                                assert(old_v[k as int].0 < old_v[i + 1].0);
                            }
                        }
                        if old(self).has_video(j) && j != idx {
                            let i = choose|i: int| 0 <= i < old_v.len() && #[trigger] old_v[i].0 == j;
                            if i < k {
                                assert(new_v[i].0 == j);
                            } else {
                                assert(i != k);
                                assert(new_v[i - 1].0 == j);
                            }
                        }
                    }
                }
                Ok(())
            },
        }
    }

    /// Produces one tick of `frame_period`. Each active video, in index order, retires its
    /// frames older than the window from the last output frame and gives up its front frame
    /// if that lies in the window; the frames given up are appended to `output` in that
    /// order, to be drawn there. The anchor becomes the latest timestamp seen (zero when no
    /// frame has ever been drawn), never moving back, and is returned. The period is whole
    /// pts units: a fractional period is rounded up so that the window `[s, s + period)`
    /// still holds every timestamp before the next tick.
    pub fn draw_into(&mut self, frame_period: u64, output: &mut Vec<DrawnFrame<F>>) -> (r: u64)
        requires
            old(self).wf(),
        ensures
            final(self).wf(),
            final(output)@ == old(output)@ + drawn_frames(
                old(self).videos(),
                old(self).last_pts_spec(),
                frame_period,
            ),
            final(self).videos().len() == old(self).videos().len(),
            forall|i: int|
                0 <= i < old(self).videos().len() ==> {
                    let (v0, v1) = (old(self).videos()[i].1, (#[trigger] final(self).videos()[i]).1);
                    &&& final(self).videos()[i].0 == old(self).videos()[i].0
                    &&& v1.queue() == queue_after_draw(
                        v0.queue(),
                        old(self).last_pts_spec(),
                        frame_period,
                    )
                    &&& v1.last_uploaded_spec() == v0.last_uploaded_spec()
                    &&& v1.position_spec() == v0.position_spec()
                    &&& v1.front_floor() >= v0.front_floor()
                },
            r == anchor_value(
                latest(
                    old(self).last_pts_spec(),
                    latest_pts(drawn_frames(old(self).videos(), old(self).last_pts_spec(), frame_period)),
                ),
            ),
            final(self).last_pts_spec() == Some(r),
            r >= anchor_value(old(self).last_pts_spec()),
            final(self).output_caps_spec() == old(self).output_caps_spec(),
    {
        let ghost v0 = self.videos();
        let ghost out0 = output@;
        let start = self.last_pts;
        let mut newest: Option<u64> = None;
        let mut i: usize = 0;
        while i < self.input_videos.len()
            invariant
                self.wf(),
                self.last_pts == start,
                self.output_caps == old(self).output_caps,
                v0 == old(self).videos(),
                start == old(self).last_pts_spec(),
                self.videos().len() == v0.len(),
                i <= v0.len(),
                output@ == out0 + drawn_frames(v0.take(i as int), start, frame_period),
                newest == latest_pts(drawn_frames(v0.take(i as int), start, frame_period)),
                forall|j: int| i <= j < v0.len() ==> #[trigger] self.videos()[j] == v0[j],
                forall|j: int|
                    0 <= j < i ==> {
                        let (a, b) = (v0[j].1, (#[trigger] self.videos()[j]).1);
                        &&& self.videos()[j].0 == v0[j].0
                        &&& b.queue() == queue_after_draw(a.queue(), start, frame_period)
                        &&& b.last_uploaded_spec() == a.last_uploaded_spec()
                        &&& b.position_spec() == a.position_spec()
                        &&& b.front_floor() >= a.front_floor()
                    },
            decreases v0.len() - i,
        {
            let idx = self.input_videos[i].0;
            let position = self.input_videos[i].1.position();
            let ghost before = self.videos();
            let drawn = self.input_videos[i].1.draw(start, frame_period);
            proof {
                assert(v0.take(i + 1).drop_last() =~= v0.take(i as int));
                assert(v0.take(i + 1).last() == v0[i as int]);
                assert forall|a: int, b: int|
                    0 <= a < b < self.videos().len() implies #[trigger] self.videos()[a].0
                    < #[trigger] self.videos()[b].0 by {
                    assert(before[a].0 < before[b].0);
                }
                assert forall|j: int| 0 <= j < self.videos().len() implies #[trigger] self.videos()[
                    j].1.wf() by {
                    if j != i {
                        assert(self.videos()[j] == before[j]);
                    }
                }
            }
            match drawn {
                Some((pts, frame)) => {
                    let ghost prev = drawn_frames(v0.take(i as int), start, frame_period);
                    let d = DrawnFrame { idx, position, pts, frame };
                    proof {
                        assert(prev.push(d).drop_last() =~= prev);
                        assert(drawn_frames(v0.take(i + 1), start, frame_period) == prev.push(d));
                    }
                    output.push(d);
                    newest = match newest {
                        None => Some(pts),
                        Some(n) => Some(if n >= pts { n } else { pts }),
                    };
                },
                None => {},
            }
            i += 1;
        }
        proof {
            assert(v0.take(v0.len() as int) =~= v0);
        }
        let anchor: u64 = match (start, newest) {
            (None, None) => 0,
            (None, Some(b)) => b,
            (Some(a), None) => a,
            (Some(a), Some(b)) => if a >= b { a } else { b },
        };
        self.last_pts = Some(anchor);
        proof {
            assert forall|a: int, b: int|
                0 <= a < b < self.videos().len() implies #[trigger] self.videos()[a].0
                < #[trigger] self.videos()[b].0 by {
                assert(v0[a].0 < v0[b].0);
            }
        }
        anchor
    }

    /// The scene names exactly the active videos.
    pub open spec fn matches_scene(&self, ids: Set<VideoId>) -> bool {
        &&& forall|i: int| 0 <= i < self.videos().len() ==> #[trigger] self.videos()[i].0 <= u32::MAX
        &&& ids == Set::new(|id: VideoId| self.has_video(id as usize))
    }

    /// The ids of the active videos as scene keys, in order.
    spec fn scene_ids(&self) -> Seq<VideoId> {
        self.videos().map_values(|e: (usize, InputVideo<F>)| e.0 as VideoId)
    }

    /// When every active index is a scene key, the keys of the active videos form a set
    /// of as many elements as there are videos, and that set is the one `matches_scene` names.
    proof fn lemma_scene_ids(&self)
        requires
            self.wf(),
            forall|i: int| 0 <= i < self.videos().len() ==> #[trigger] self.videos()[i].0 <= u32::MAX,
        ensures
            self.scene_ids().to_set().len() == self.videos().len(),
            self.scene_ids().to_set() == Set::new(|id: VideoId| self.has_video(id as usize)),
    {
        let s = self.scene_ids();
        let v = self.videos();
        assert(s.no_duplicates()) by {
            assert forall|a: int, b: int| 0 <= a < s.len() && 0 <= b < s.len() && a != b implies s[a]
                != s[b] by {
                if a < b {
                    assert(v[a].0 < v[b].0);
                } else {
                    assert(v[b].0 < v[a].0);
                }
            }
        }
        s.unique_seq_to_set();
        assert forall|id: VideoId| s.to_set().contains(id) <==> self.has_video(id as usize) by {
            if s.to_set().contains(id) {
                let i = choose|i: int| 0 <= i < s.len() && s[i] == id;
                assert(v[i].0 == id as usize);
            }
            if self.has_video(id as usize) {
                let i = choose|i: int| 0 <= i < v.len() && #[trigger] v[i].0 == id as usize;
                assert(s[i] == id);
            }
        }
        assert(s.to_set() =~= Set::new(|id: VideoId| self.has_video(id as usize)));
    }

    /// Checks that `scene` configures exactly the active videos.
    pub fn check_scene(&self, scene: &Scene) -> (r: Result<(), CompositorError>)
        requires
            self.wf(),
        ensures
            r is Ok <==> self.matches_scene(scene.video_configs@.dom()),
            r is Err ==> r == Err::<(), CompositorError>(CompositorError::DifferentVideoIndexes),
    {
        let dom = Ghost(scene.video_configs@.dom());
        let mut i: usize = 0;
        while i < self.input_videos.len()
            invariant
                self.wf(),
                dom@ == scene.video_configs@.dom(),
                i <= self.videos().len(),
                forall|j: int|
                    0 <= j < i ==> #[trigger] self.videos()[j].0 <= u32::MAX && dom@.contains(
                        self.videos()[j].0 as VideoId,
                    ),
            decreases self.videos().len() - i,
        {
            let idx = self.input_videos[i].0;
            if idx > u32::MAX as usize {
                return Err(CompositorError::DifferentVideoIndexes);
            }
            if !scene.video_configs.contains_key(&(idx as VideoId)) {
                proof {
                    if self.matches_scene(dom@) {
                        assert(self.has_video((idx as VideoId) as usize));
                    }
                }
                return Err(CompositorError::DifferentVideoIndexes);
            }
            i += 1;
        }
        proof {
            self.lemma_scene_ids();
            let t = self.scene_ids().to_set();
            assert(t.subset_of(dom@)) by {
                assert forall|id: VideoId| t.contains(id) implies dom@.contains(id) by {
                    let k = choose|k: int| 0 <= k < self.scene_ids().len() && self.scene_ids()[k] == id;
                    assert(self.videos()[k].0 <= u32::MAX && dom@.contains(self.videos()[k].0 as VideoId));
                }
            }
            vstd::set_lib::lemma_len_subset(t, dom@);
        }
        if scene.video_configs.len() != self.input_videos.len() {
            return Err(CompositorError::DifferentVideoIndexes);
        }
        proof {
            let t = self.scene_ids().to_set();
            vstd::set_lib::lemma_subset_equality(t, dom@);
        }
        Ok(())
    }

    /// Reads back the frame that a tick rendered: the staged luma plane `y` and chroma planes
    /// `u` and `v`, rows padded to the GPU's row pitch, become one tightly packed frame of
    /// exactly the output format's size.
    pub fn download(&self, y: &[u8], u: &[u8], v: &[u8]) -> (r: Vec<u8>)
        requires
            self.wf(),
            self.output_caps_spec().height * padded_row(self.output_caps_spec().width as int)
                <= y@.len(),
            chroma_height(self.output_caps_spec().pixel_format, self.output_caps_spec().height as int)
                * padded_row(
                chroma_width(self.output_caps_spec().pixel_format, self.output_caps_spec().width as int),
            ) <= u@.len(),
            chroma_height(self.output_caps_spec().pixel_format, self.output_caps_spec().height as int)
                * padded_row(
                chroma_width(self.output_caps_spec().pixel_format, self.output_caps_spec().width as int),
            ) <= v@.len(),
        ensures
            r@ == packed_frame(self.output_caps_spec(), y@, u@, v@),
            r@.len() == frame_len(
                self.output_caps_spec().pixel_format,
                self.output_caps_spec().width as int,
                self.output_caps_spec().height as int,
            ),
    {
        download(&self.output_caps, y, u, v)
    }
}

} // verus!