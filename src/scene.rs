//! Declarative placement of each video, keyed by video id.
use vstd::prelude::*;

use std::collections::HashMap;

use crate::geometry::VideoPosition;
use crate::plugins::PluginRegistryKey;

verus! {

broadcast use vstd::std_specs::hash::group_hash_axioms;

/// Key of a video in a scene.
pub type VideoId = u32;

/// How one video is placed and transformed before it is composed.
pub struct VideoConfig {
    pub placement: VideoPosition,
    /// The registered transformations applied to the video's texture, in order.
    pub texture_transformations: Vec<PluginRegistryKey>,
}

/// The configuration of every video, by id.
pub struct Scene {
    pub video_configs: HashMap<VideoId, VideoConfig>,
}

impl Scene {
    /// A scene with no videos.
    pub fn empty() -> (r: Scene)
        ensures
            r.video_configs@ == Map::<VideoId, VideoConfig>::empty(),
    {
        Scene { video_configs: HashMap::new() }
    }
}

} // verus!
