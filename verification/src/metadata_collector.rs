//! The row that is kept for each extracted keyframe, and the collector that
//! fills it.

use vstd::prelude::*;
use crate::pixels::{pixel_sum, sum_pixels};
use crate::error::Result;
use crate::scene::{bit_at, resize_luma, GrayFrame};
use crate::text::{
    char_vec, lemma_prefix_before_is_prefix, parse_i32, parse_i32_chars, prefix_before, slice_chars,
    spec_starts_with, starts_with, take_before,
};

verus! {

/// One row per extracted keyframe.
#[derive(Debug)]
pub struct FrameMetadata {
    /// The time of the frame within its segment, in nanoseconds.
    pub ts_ns: i64,
    pub monitor_id: i32,
    pub segment_id: String,
    /// Where the thumbnail is stored.
    pub path: String,
    pub phash16: i64,
    /// The Shannon entropy of the grey levels, in millionths of a bit.
    pub entropy: u32,
    pub app_name: String,
    pub win_title: String,
    pub width: u32,
    pub height: u32,
}

impl Clone for FrameMetadata {
    fn clone(&self) -> (r: Self)
        ensures
            r == *self,
    {
        FrameMetadata {
            ts_ns: self.ts_ns,
            monitor_id: self.monitor_id,
            segment_id: self.segment_id.clone(),
            path: self.path.clone(),
            phash16: self.phash16,
            entropy: self.entropy,
            app_name: self.app_name.clone(),
            win_title: self.win_title.clone(),
            width: self.width,
            height: self.height,
        }
    }
}

/// The active application as it was last seen.
#[derive(Clone, Debug)]
pub struct AppInfo {
    pub app_name: String,
    pub win_title: String,
    /// The reading of the monotonic clock when it was seen, in nanoseconds.
    pub seen_at: u64,
}

/// Fills the rows of the keyframes. It remembers the active application for
/// a while, so that the system is not asked for every frame.
#[derive(Debug)]
pub struct MetadataCollector {
    pub app_cache: Option<AppInfo>,
    /// For how long a remembered application is used, in nanoseconds.
    pub cache_duration: u64,
}

/// The first part of `s`, split at underscores, that begins with "monitor".
pub open spec fn monitor_part(s: Seq<char>) -> Option<Seq<char>>
    decreases s.len(),
{
    let head = prefix_before(s, '_');
    if spec_starts_with(head, "monitor"@) {
        Some(head)
    } else if head.len() < s.len() {
        monitor_part(s.skip(head.len() as int + 1))
    } else {
        None
    }
}

/// The number of the monitor that a segment identifier names: what follows
/// "monitor" in the first part that begins so, read as a 32-bit number; 0
/// where no part begins so or what follows is no such number.
pub open spec fn monitor_id_of(segment_id: Seq<char>) -> i32 {
    match monitor_part(segment_id) {
        Some(part) => match parse_i32(part.skip("monitor"@.len() as int)) {
            Some(id) => id,
            None => 0,
        },
        None => 0,
    }
}

/// Whether something seen at `seen_at` is still fresh at `now`: less than
/// `duration` has passed since, a clock that went backwards counting as no
/// time at all.
pub open spec fn is_fresh(seen_at: u64, now: u64, duration: u64) -> bool {
    if now >= seen_at {
        now - seen_at < duration
    } else {
        0 < duration
    }
}

/// The number of the monitor that a segment identifier names.
pub fn extract_monitor_id(segment_id: &str) -> (id: i32)
    ensures
        id == monitor_id_of(segment_id@),
{
    let chars = char_vec(segment_id);
    let word = char_vec("monitor");
    let mut from: usize = 0;
    assert(chars@.skip(0) =~= chars@);
    loop
        invariant
            from <= chars.len(),
            chars@ == segment_id@,
            word@ == "monitor"@,
            monitor_part(segment_id@) == monitor_part(chars@.skip(from as int)),
        decreases chars.len() - from,
    {
        let rest = slice_chars(&chars, from, chars.len());
        assert(rest@ =~= chars@.skip(from as int));
        let head = take_before(&rest, '_');
        proof {
            lemma_prefix_before_is_prefix(rest@, '_');
        }
        if starts_with(&head, &word) {
            let digits = slice_chars(&head, word.len(), head.len());
            assert(digits@ =~= head@.skip("monitor"@.len() as int));
            return match parse_i32_chars(&digits) {
                Some(id) => id,
                None => 0,
            };
        }
        if head.len() < rest.len() {
            assert(rest@.skip(head.len() + 1) =~= chars@.skip(from + head.len() + 1));
            from = from + head.len() + 1;
        } else {
            return 0;
        }
    }
}

impl MetadataCollector {
    /// A collector that remembers nothing yet and keeps what it learns for
    /// one second.
    pub fn new() -> (r: Result<MetadataCollector>)
        ensures
            r is Ok,
            r->Ok_0.app_cache is None,
            r->Ok_0.cache_duration == 1_000_000_000,
    {
        Ok(MetadataCollector { app_cache: None, cache_duration: 1_000_000_000 })
    }

    /// The number of the monitor that a segment identifier names.
    pub fn extract_monitor_id(&self, segment_id: &str) -> (id: i32)
        ensures
            id == monitor_id_of(segment_id@),
    {
        extract_monitor_id(segment_id)
    }

    /// Forgets the remembered application.
    pub fn clear_cache(&mut self)
        ensures
            final(self).app_cache is None,
            final(self).cache_duration == old(self).cache_duration,
    {
        self.app_cache = None;
    }

    /// Sets for how long a remembered application is used, in nanoseconds.
    pub fn set_cache_duration(&mut self, duration: u64)
        ensures
            final(self).cache_duration == duration,
            final(self).app_cache == old(self).app_cache,
    {
        self.cache_duration = duration;
    }

    /// The remembered application, where it is still fresh at `now`.
    pub fn cached_app_info(&self, now: u64) -> (r: Option<(String, String)>)
        ensures
            match self.app_cache {
                Some(info) => if is_fresh(info.seen_at, now, self.cache_duration) {
                    r == Some((info.app_name, info.win_title))
                } else {
                    r is None
                },
                None => r is None,
            },
    {
        match &self.app_cache {
            Some(info) => {
                let elapsed: u64 = if now >= info.seen_at {
                    now - info.seen_at
                } else {
                    0
                };
                if elapsed < self.cache_duration {
                    Some((info.app_name.clone(), info.win_title.clone()))
                } else {
                    None
                }
            },
            None => None,
        }
    }

    /// Remembers the active application as seen at `now`.
    pub fn remember_app_info(&mut self, app_name: String, win_title: String, now: u64)
        ensures
            final(self).app_cache == Some(AppInfo { app_name, win_title, seen_at: now }),
            final(self).cache_duration == old(self).cache_duration,
    {
        self.app_cache = Some(AppInfo { app_name, win_title, seen_at: now });
    }

    /// The row of a keyframe, from what was measured on its image and what
    /// the system said of the active application.
    pub fn frame_metadata(
        &self,
        ts_ns: i64,
        segment_id: &str,
        path: &str,
        width: u32,
        height: u32,
        phash16: i64,
        entropy: u32,
        app_name: String,
        win_title: String,
    ) -> (row: FrameMetadata)
        ensures
            row.ts_ns == ts_ns,
            row.monitor_id == monitor_id_of(segment_id@),
            row.segment_id@ == segment_id@,
            row.path@ == path@,
            row.phash16 == phash16,
            row.entropy == entropy,
            row.app_name == app_name,
            row.win_title == win_title,
            row.width == width,
            row.height == height,
    {
        FrameMetadata {
            ts_ns,
            monitor_id: extract_monitor_id(segment_id),
            segment_id: String::from_str(segment_id),
            path: String::from_str(path),
            phash16,
            entropy,
            app_name,
            win_title,
            width,
            height,
        }
    }
}

/// Whether grey level `i` is above the mean of the 64 grey levels,
/// rounded down.
pub open spec fn above_mean(p: Seq<u8>, i: int) -> bool {
    p[i] > pixel_sum(p) / 64
}

/// Whether `h` is the short hash of the 64 grey levels `p`: of its lowest
/// 16 bits, bit `i` is set exactly where grey level `i` is above the mean,
/// and no other bit is set.
pub open spec fn is_short_hash_of(h: i64, p: Seq<u8>) -> bool {
    &&& 0 <= h < 0x1_0000
    &&& forall|i: u64| i < 16 ==> #[trigger] bit_at(h as u64, i) == above_mean(p, i as int)
}

/// The short hash of 64 grey levels.
pub fn short_hash_of_samples(p: &Vec<u8>) -> (h: i64)
    requires
        p.len() == 64,
    ensures
        is_short_hash_of(h, p@),
{
    let average: u64 = sum_pixels(p) / 64;
    let mut h: u64 = 0;
    let mut i: u64 = 0;
    assert forall|k: u64| k < 64 implies !#[trigger] bit_at(0u64, k) by {
        assert((0u64 >> k) & 1 != 1) by (bit_vector)
            requires
                k < 64,
        ;
    }
    while i < 16
        invariant
            i <= 16,
            p.len() == 64,
            average as int == pixel_sum(p@) / 64,
            h <= 0xffff,
            forall|k: u64| k < 64 ==> #[trigger] bit_at(h, k) == (k < i && above_mean(p@, k as int)),
        decreases 16 - i,
    {
        if p[i as usize] as u64 > average {
            let ghost before = h;
            h = h | (1u64 << i);
            assert forall|k: u64| k < 64 implies #[trigger] bit_at(h, k) == (bit_at(before, k) || k
                == i) by {
                assert((((before | (1u64 << i)) >> k) & 1 == 1) == (((before >> k) & 1 == 1) || k
                    == i)) by (bit_vector)
                    requires
                        i < 64,
                        k < 64,
                ;
            }
            assert((before | (1u64 << i)) <= 0xffff) by (bit_vector)
                requires
                    before <= 0xffff,
                    i < 16,
            ;
        }
        i += 1;
    }
    h as i64
}

impl MetadataCollector {
    /// The short hash of the 8 by 8 resample of a frame.
    pub fn calculate_simple_phash(&self, frame: &GrayFrame) -> (r: Result<i64>)
        requires
            frame.wf(),
        ensures
            r is Ok,
            exists|samples: Seq<u8>| samples.len() == 64 && is_short_hash_of(r->Ok_0, samples),
            frame.width == 8 && frame.height == 8 ==> is_short_hash_of(r->Ok_0, frame.pixels@),
    {
        let small = resize_luma(&frame.pixels, frame.width, frame.height, 8, 8);
        let h = short_hash_of_samples(&small);
        assert(small@.len() == 64 && is_short_hash_of(h, small@));
        Ok(h)
    }
}

} // verus!
