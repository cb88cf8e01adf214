//! Errors reported by the compositor to its callers.
use vstd::prelude::*;

verus! {

/// Everything that the compositor reports instead of doing the requested work.
#[derive(Debug, Clone, Copy, PartialEq, Eq, Structural)]
pub enum CompositorError {
    /// The requested operation exists in the interface but has no implementation.
    NotImplemented,
    /// No active stream has the given index.
    BadVideoIndex(usize),
    /// The framerate is zero, has a zero denominator, or gives no usable frame period.
    BadFramerate,
    /// The pixel format is not one that the compositor can read or write.
    UnsupportedPixelFormat,
    /// The resolution (width, height) cannot be used for a video.
    BadVideoResolution(u32, u32),
    /// A stream with the given index is already active.
    VideoIndexAlreadyTaken(usize),
    /// The scene and the set of active streams name different indexes.
    DifferentVideoIndexes,
}

impl CompositorError {
    /// The short machine-readable tag under which the error is reported to the host.
    pub fn tag(&self) -> (r: &'static str)
        ensures
            r@ == error_tag(*self),
    {
        match self {
            CompositorError::NotImplemented => "function_not_implemented",
            CompositorError::BadVideoIndex(_) => "bad_video_index",
            CompositorError::BadFramerate => "bad_framerate",
            CompositorError::UnsupportedPixelFormat => "unsupported_pixel_format",
            CompositorError::BadVideoResolution(_, _) => "bad_video_resolution",
            CompositorError::VideoIndexAlreadyTaken(_) => "video_index_already_taken",
            CompositorError::DifferentVideoIndexes => "different_video_indexes",
        }
    }

    /// The video index that the error is about, for the errors that carry one.
    pub fn video_index(&self) -> (r: Option<usize>)
        ensures
            r == match *self {
                CompositorError::BadVideoIndex(i) => Some(i),
                CompositorError::VideoIndexAlreadyTaken(i) => Some(i),
                _ => None,
            },
    {
        match self {
            CompositorError::BadVideoIndex(i) => Some(*i),
            CompositorError::VideoIndexAlreadyTaken(i) => Some(*i),
            _ => None,
        }
    }

    /// The width and height that a resolution error reports.
    pub fn resolution(&self) -> (r: Option<(u32, u32)>)
        ensures
            r == match *self {
                CompositorError::BadVideoResolution(w, h) => Some((w, h)),
                _ => None,
            },
    {
        match self {
            CompositorError::BadVideoResolution(w, h) => Some((*w, *h)),
            _ => None,
        }
    }
}

/// The tag of each error, as the host sees it.
pub open spec fn error_tag(e: CompositorError) -> Seq<char> {
    match e {
        CompositorError::NotImplemented => "function_not_implemented"@,
        CompositorError::BadVideoIndex(_) => "bad_video_index"@,
        CompositorError::BadFramerate => "bad_framerate"@,
        CompositorError::UnsupportedPixelFormat => "unsupported_pixel_format"@,
        CompositorError::BadVideoResolution(_, _) => "bad_video_resolution"@,
        CompositorError::VideoIndexAlreadyTaken(_) => "video_index_already_taken"@,
        CompositorError::DifferentVideoIndexes => "different_video_indexes"@,
    }
}

} // verus!
