//! Keyframes as the sampler hands them on.

use vstd::prelude::*;

verus! {

/// An extracted frame.
#[derive(Clone, Debug)]
pub struct Keyframe {
    pub id: String,
    /// The time of the frame within its segment, in nanoseconds.
    pub timestamp_ns: i64,
    pub segment_id: String,
    /// Where the thumbnail is stored.
    pub frame_path: String,
    pub width: u32,
    pub height: u32,
    /// The pixel format, such as "RGB".
    pub format: String,
}

/// A frame known only by its time, the path of its image and its segment.
#[derive(Clone, Debug)]
pub struct MockKeyframe {
    pub timestamp_ns: i64,
    pub frame_path: String,
    pub segment_id: String,
}

impl MockKeyframe {
    pub fn new(timestamp_ns: i64, frame_path: String, segment_id: String) -> (k: MockKeyframe)
        ensures
            k.timestamp_ns == timestamp_ns,
            k.frame_path == frame_path,
            k.segment_id == segment_id,
    {
        MockKeyframe { timestamp_ns, frame_path, segment_id }
    }
}

} // verus!
