//! Which decoded frames become keyframes, and how they are named and timed.

use vstd::prelude::*;
use crate::error::Result;
use crate::keyframe::Keyframe;
use crate::text::{
    char_vec, push_decimal, push_signed_decimal, push_str_chars, spec_decimal, spec_signed_decimal,
    string_of,
};

verus! {

/// The number of source frames from one keyframe to the next: the rate of
/// the source, `num / den` frames per second, divided by the extraction
/// rate in thousandths of a frame per second and rounded to the nearest
/// whole number, halves upwards.
pub open spec fn interval_of(num: int, den: int, extraction_fps: int) -> int {
    (2000 * num + den * extraction_fps) / (2 * den * extraction_fps)
}

/// The time of the frame with the given number at the given extraction
/// rate, in nanoseconds, rounded down: the number divided by the rate.
pub open spec fn frame_time_ns(frame_number: int, extraction_fps: int) -> int {
    (frame_number * 1_000_000_000_000) / extraction_fps
}

/// Whether the frame with the given number is extracted.
pub open spec fn is_extracted(frame_number: int, interval: int) -> bool {
    frame_number % interval == 0
}

/// The name of the file of a keyframe.
pub open spec fn frame_file(segment_id: Seq<char>, frame_number: nat) -> Seq<char> {
    "frame_"@ + segment_id + seq!['_'] + spec_decimal(frame_number) + ".png"@
}

/// The identifier of a segment: the name of its file without the ending,
/// an underscore and the time of its creation in seconds since the epoch.
pub open spec fn segment_id_of(stem: Seq<char>, created_secs: i64) -> Seq<char> {
    stem + seq!['_'] + spec_signed_decimal(created_secs as int)
}

/// Decides which frames of a decoded stream are kept.
#[derive(Clone, Copy, Debug)]
pub struct KeyframeExtractor {
    /// The extraction rate in thousandths of a frame per second.
    pub extraction_fps: u32,
}

impl KeyframeExtractor {
    pub fn new(extraction_fps: u32) -> (r: Result<KeyframeExtractor>)
        ensures
            r is Ok,
            r->Ok_0.extraction_fps == extraction_fps,
    {
        Ok(KeyframeExtractor { extraction_fps })
    }

    pub fn set_extraction_rate(&mut self, fps: u32)
        ensures
            final(self).extraction_fps == fps,
    {
        self.extraction_fps = fps;
    }

    /// The number of source frames from one keyframe to the next, for a
    /// source of `num / den` frames per second. None where the source has no
    /// rate, the extraction rate is 0, or the extraction rate is more than
    /// twice the rate of the source, so that the interval would be 0.
    pub fn frame_interval(&self, num: u32, den: u32) -> (r: Option<u64>)
        ensures
            match r {
                Some(i) => den > 0 && self.extraction_fps > 0 && i > 0 && i as int == interval_of(
                    num as int,
                    den as int,
                    self.extraction_fps as int,
                ),
                None => den == 0 || self.extraction_fps == 0 || interval_of(
                    num as int,
                    den as int,
                    self.extraction_fps as int,
                ) == 0,
            },
    {
        if den == 0 || self.extraction_fps == 0 {
            return None;
        }
        proof {
            assert(1 <= den as int * self.extraction_fps as int <= 0xffff_ffff * 0xffff_ffff)
                by (nonlinear_arith)
                requires
                    1 <= den as int <= 0xffff_ffff,
                    1 <= self.extraction_fps as int <= 0xffff_ffff,
            ;
        }
        let step: u128 = (den as u128) * (self.extraction_fps as u128);
        let twice: u128 = 2 * step;
        let i: u128 = (2000 * (num as u128) + step) / twice;
        proof {
            assert(2 * den as int * self.extraction_fps as int == 2 * (den as int
                * self.extraction_fps as int)) by (nonlinear_arith);
            let n = 2000 * (num as int) + step as int;
            assert(n / (twice as int) <= 0xffff_ffff_ffff_ffff) by (nonlinear_arith)
                requires
                    0 <= n <= 2000 * 0xffff_ffff + 0xffff_ffff * 0xffff_ffff,
                    twice >= 2,
            ;
        }
        if i == 0 {
            None
        } else {
            Some(i as u64)
        }
    }

    /// Whether the frame with the given number is extracted at the given interval.
    pub fn should_extract(frame_number: u64, interval: u64) -> (r: bool)
        requires
            interval > 0,
        ensures
            r == is_extracted(frame_number as int, interval as int),
    {
        frame_number % interval == 0
    }

    /// The time of the frame with the given number, in nanoseconds; the
    /// greatest time that can be written where the time is later than that.
    pub fn timestamp_ns(&self, frame_number: u64) -> (t: i64)
        requires
            self.extraction_fps > 0,
        ensures
            t as int == if frame_time_ns(frame_number as int, self.extraction_fps as int)
                > i64::MAX as int {
                i64::MAX as int
            } else {
                frame_time_ns(frame_number as int, self.extraction_fps as int)
            },
            t >= 0,
    {
        proof {
            assert(frame_number as int * 1_000_000_000_000 <= 0xffff_ffff_ffff_ffff
                * 1_000_000_000_000) by (nonlinear_arith)
                requires
                    frame_number as int <= 0xffff_ffff_ffff_ffff,
            ;
        }
        let t: u128 = (frame_number as u128 * 1_000_000_000_000) / (self.extraction_fps as u128);
        if t > i64::MAX as u128 {
            i64::MAX
        } else {
            t as i64
        }
    }

    /// The name of the file of a keyframe.
    pub fn frame_file_name(segment_id: &str, frame_number: u64) -> (name: String)
        ensures
            name@ == frame_file(segment_id@, frame_number as nat),
    {
        let mut out = char_vec("frame_");
        push_str_chars(&mut out, segment_id);
        out.push('_');
        push_decimal(&mut out, frame_number);
        push_str_chars(&mut out, ".png");
        assert(out@ =~= frame_file(segment_id@, frame_number as nat));
        string_of(&out)
    }

    /// The identifier of the segment in the file with the given name
    /// without ending that is first seen at `created_secs`.
    pub fn generate_segment_id(&self, stem: &str, created_secs: i64) -> (id: String)
        ensures
            id@ == segment_id_of(stem@, created_secs),
    {
        let mut out = char_vec(stem);
        out.push('_');
        push_signed_decimal(&mut out, created_secs);
        string_of(&out)
    }
}

/// What is done with a decoded frame.
#[derive(Debug)]
pub enum SamplerAction {
    /// The frame is passed over.
    Skip,
    /// The frame is stored as a keyframe.
    Save {
        /// The number of the frame among the decoded frames, from 0.
        frame_number: u64,
        /// The name of the file of its thumbnail.
        file_name: String,
        /// The time of the frame within its segment, in nanoseconds.
        timestamp_ns: i64,
    },
}

/// What is done with a decoded frame, as a value.
pub enum SamplerActionView {
    Skip,
    Save { frame_number: u64, file_name: Seq<char>, timestamp_ns: int },
}

impl View for SamplerAction {
    type V = SamplerActionView;

    open spec fn view(&self) -> SamplerActionView {
        match self {
            SamplerAction::Skip => SamplerActionView::Skip,
            SamplerAction::Save { frame_number, file_name, timestamp_ns } => SamplerActionView::Save {
                frame_number: *frame_number,
                file_name: file_name@,
                timestamp_ns: *timestamp_ns as int,
            },
        }
    }
}

/// The sampler of one segment: it is told of each decoded frame and says
/// what is done with it.
#[derive(Debug)]
pub struct Sampler {
    pub extractor: KeyframeExtractor,
    pub segment_id: String,
    /// The number of source frames from one keyframe to the next.
    pub interval: u64,
    /// How many frames were decoded so far.
    pub frame_count: u64,
}

impl Sampler {
    /// Whether the sampler can work: the rate and the interval are positive.
    pub open spec fn wf(&self) -> bool {
        self.extractor.extraction_fps > 0 && self.interval > 0
    }

    /// What is done with the frame of the given number.
    pub open spec fn action_for(&self, frame_number: u64) -> SamplerActionView {
        if is_extracted(frame_number as int, self.interval as int) {
            SamplerActionView::Save {
                frame_number,
                file_name: frame_file(self.segment_id@, frame_number as nat),
                timestamp_ns: if frame_time_ns(frame_number as int, self.extractor.extraction_fps as int)
                    > i64::MAX as int {
                    i64::MAX as int
                } else {
                    frame_time_ns(frame_number as int, self.extractor.extraction_fps as int)
                },
            }
        } else {
            SamplerActionView::Skip
        }
    }

    /// The sampler for a segment of a source with `num / den` frames per
    /// second; none where the interval between two keyframes would be 0 or
    /// the source or the extraction have no rate.
    pub fn new(extractor: KeyframeExtractor, segment_id: String, num: u32, den: u32) -> (r: Option<Sampler>)
        ensures
            match r {
                Some(s) => s.wf() && s.extractor == extractor && s.segment_id == segment_id
                    && s.frame_count == 0 && den > 0 && s.interval as int == interval_of(
                    num as int,
                    den as int,
                    extractor.extraction_fps as int,
                ),
                None => den == 0 || extractor.extraction_fps == 0 || interval_of(
                    num as int,
                    den as int,
                    extractor.extraction_fps as int,
                ) == 0,
            },
    {
        match extractor.frame_interval(num, den) {
            Some(interval) => Some(Sampler { extractor, segment_id, interval, frame_count: 0 }),
            None => None,
        }
    }

    /// Takes the next decoded frame: every frame whose number is a
    /// multiple of the interval is stored, the others are passed over.
    pub fn next_frame(&mut self) -> (a: SamplerAction)
        requires
            old(self).wf(),
            old(self).frame_count < u64::MAX,
        ensures
            a@ == old(self).action_for(old(self).frame_count),
            final(self).frame_count == old(self).frame_count + 1,
            final(self).extractor == old(self).extractor,
            final(self).segment_id == old(self).segment_id,
            final(self).interval == old(self).interval,
            final(self).wf(),
    {
        let frame_number = self.frame_count;
        self.frame_count = frame_number + 1;
        if KeyframeExtractor::should_extract(frame_number, self.interval) {
            SamplerAction::Save {
                frame_number,
                file_name: KeyframeExtractor::frame_file_name(self.segment_id.as_str(), frame_number),
                timestamp_ns: self.extractor.timestamp_ns(frame_number),
            }
        } else {
            SamplerAction::Skip
        }
    }

    /// The keyframe of a frame that was stored.
    pub fn keyframe(
        &self,
        id: String,
        timestamp_ns: i64,
        frame_path: String,
        width: u32,
        height: u32,
        format: String,
    ) -> (k: Keyframe)
        ensures
            k.id == id,
            k.timestamp_ns == timestamp_ns,
            k.segment_id@ == self.segment_id@,
            k.frame_path == frame_path,
            k.width == width,
            k.height == height,
            k.format == format,
    {
        Keyframe {
            id,
            timestamp_ns,
            segment_id: self.segment_id.clone(),
            frame_path,
            width,
            height,
            format,
        }
    }
}

/// How many of the first `n` frames are stored.
pub open spec fn stored_among(n: nat, interval: int) -> nat
    decreases n,
{
    if n == 0 {
        0
    } else {
        stored_among((n - 1) as nat, interval) + if is_extracted(n - 1, interval) {
            1nat
        } else {
            0nat
        }
    }
}

/// Of the first `n` frames, one in `interval` is stored, beginning with
/// the first: as many as `n` divided by the interval, rounded up.
pub proof fn lemma_stored_among(n: nat, interval: int)
    requires
        interval > 0,
    ensures
        stored_among(n, interval) == (n + interval - 1) / interval,
    decreases n,
{
    if n > 0 {
        lemma_stored_among((n - 1) as nat, interval);
        let m = n - 1;
        assert((m + interval) / interval == (m + interval - 1) / interval + if m % interval == 0 {
            1int
        } else {
            0int
        }) by (nonlinear_arith)
            requires
                interval > 0,
                m >= 0,
        ;
    } else {
        assert((interval - 1) / interval == 0) by (nonlinear_arith)
            requires
                interval > 0,
        ;
    }
}

} // verus!
