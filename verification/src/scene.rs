//! Perceptual hashing, structural similarity and the scene-change classifier.

use vstd::prelude::*;
use crate::pixels::{pixel_sum, sum_pixels};
use crate::error::Result;
use crate::ssim::{lemma_ssim_of_identical_samples, spec_ssim, ssim_of_samples};
use crate::units::{clamp_unit, UNIT};

verus! {

/// The kinds of transition between two frames.
#[derive(Clone, Copy, Debug, PartialEq, Eq, Structural)]
pub enum SceneChangeType {
    /// An abrupt change of scene.
    Cut,
    /// A gradual transition.
    Fade,
    /// Significant motion.
    Motion,
    /// A change of the content of the interface.
    ContentChange,
}

/// A grey-level image, row by row.
#[derive(Clone, Debug)]
pub struct GrayFrame {
    pub width: u32,
    pub height: u32,
    pub pixels: Vec<u8>,
}

impl GrayFrame {
    /// Whether there is one grey level for each pixel.
    pub open spec fn wf(&self) -> bool {
        self.pixels@.len() == self.width * self.height
    }

    /// The image of the given size with the given grey levels; none where
    /// their number is not the number of pixels.
    pub fn new(width: u32, height: u32, pixels: Vec<u8>) -> (r: Option<GrayFrame>)
        ensures
            match r {
                Some(f) => f.wf() && f.width == width && f.height == height && f.pixels == pixels,
                None => pixels@.len() != width * height,
            },
    {
        proof {
            assert(0 <= width as int * height as int <= 0xffff_ffff * 0xffff_ffff)
                by (nonlinear_arith)
                requires
                    0 <= width as int <= 0xffff_ffff,
                    0 <= height as int <= 0xffff_ffff,
            ;
        }
        let count: u64 = (width as u64) * (height as u64);
        if pixels.len() as u64 == count {
            Some(GrayFrame { width, height, pixels })
        } else {
            None
        }
    }
}

/// Whether bit `i` of `h` is set.
pub open spec fn bit_at(h: u64, i: u64) -> bool {
    (h >> i) & 1 == 1
}

/// Whether grey level `i` is at least the mean of all of them.
pub open spec fn at_least_mean(p: Seq<u8>, i: int) -> bool {
    p.len() * p[i] >= pixel_sum(p)
}

/// Whether `h` is the mean-threshold hash of the 64 grey levels `p`: bit `i`
/// is set exactly where grey level `i` is at least their mean.
pub open spec fn is_phash_of(h: u64, p: Seq<u8>) -> bool {
    forall|i: u64| i < 64 ==> #[trigger] bit_at(h, i) == at_least_mean(p, i as int)
}

/// The number of positions below `n` at which the bits of two hashes differ.
pub open spec fn differing_bits(a: u64, b: u64, n: nat) -> nat
    decreases n,
{
    if n == 0 {
        0
    } else {
        differing_bits(a, b, (n - 1) as nat) + if bit_at(a, (n - 1) as u64) != bit_at(
            b,
            (n - 1) as u64,
        ) {
            1nat
        } else {
            0nat
        }
    }
}

/// The Hamming distance between two 64-bit hashes.
pub open spec fn spec_hamming(a: u64, b: u64) -> nat {
    differing_bits(a, b, 64)
}

/// The mean-threshold hash of 64 grey levels.
pub fn phash_of_samples(p: &Vec<u8>) -> (h: u64)
    requires
        p.len() == 64,
    ensures
        is_phash_of(h, p@),
{
    let sum: u64 = sum_pixels(p);
    let mut h: u64 = 0;
    let mut i: u64 = 0;
    assert forall|k: u64| k < 64 implies !#[trigger] bit_at(0u64, k) by {
        assert((0u64 >> k) & 1 != 1) by (bit_vector)
            requires
                k < 64,
        ;
    }
    while i < 64
        invariant
            i <= 64,
            p.len() == 64,
            sum as int == pixel_sum(p@),
            forall|k: u64| k < 64 ==> #[trigger] bit_at(h, k) == (k < i && at_least_mean(p@, k as int)),
        decreases 64 - i,
    {
        if 64 * (p[i as usize] as u64) >= sum {
            let ghost before = h;
            h = h | (1u64 << i);
            assert forall|k: u64| k < 64 implies #[trigger] bit_at(h, k) == (bit_at(before, k) || k
                == i) by {
                assert((((before | (1u64 << i)) >> k) & 1 == 1) == (((before >> k) & 1 == 1) || k
                    == i)) by (bit_vector)
                    requires
                        i < 64,
                        k < 64,
                ;
            }
        }
        i += 1;
    }
    h
}

/// The Hamming distance between two hashes.
pub fn hamming_distance(a: u64, b: u64) -> (d: u32)
    ensures
        d as nat == spec_hamming(a, b),
        d <= 64,
{
    let mut d: u32 = 0;
    let mut i: u64 = 0;
    while i < 64
        invariant
            i <= 64,
            d as nat == differing_bits(a, b, i as nat),
            d <= i,
        decreases 64 - i,
    {
        if ((a >> i) & 1 == 1) != ((b >> i) & 1 == 1) {
            d += 1;
        }
        i += 1;
    }
    d
}

/// A hash is at distance 0 from itself.
pub proof fn lemma_hamming_same(h: u64)
    ensures
        spec_hamming(h, h) == 0,
{
    lemma_differing_bits_same(h, 64);
}

proof fn lemma_differing_bits_same(h: u64, n: nat)
    ensures
        differing_bits(h, h, n) == 0,
    decreases n,
{
    if n > 0 {
        lemma_differing_bits_same(h, (n - 1) as nat);
    }
}

/// `image::imageops::resize` with the filter `Lanczos3`, on a grey-level
/// image given row by row. The result has one grey level for each pixel of
/// the new size; where the new size is the old one it is a copy. The values
/// in between come from floating-point arithmetic, so nothing more is
/// promised of them.
#[verifier::external_body]
pub(crate) fn resize_luma(pixels: &Vec<u8>, width: u32, height: u32, new_width: u32, new_height: u32) -> (r:
    Vec<u8>)
    requires
        pixels@.len() == width * height,
        0 < new_width <= 64,
        0 < new_height <= 64,
    ensures
        r@.len() == new_width * new_height,
        width == new_width && height == new_height ==> r@ == pixels@,
{
    let img = image::GrayImage::from_raw(width, height, pixels.clone()).unwrap();
    image::imageops::resize(&img, new_width, new_height, image::imageops::FilterType::Lanczos3)
        .into_raw()
}

/// What the classifier keeps of a frame.
#[derive(Clone, Debug)]
pub struct FrameSignals {
    /// The time of the frame within its segment, in nanoseconds.
    pub timestamp_ns: i64,
    /// The mean-threshold hash of the 8 by 8 resample.
    pub phash: u64,
    /// The Shannon entropy of the grey levels, in millionths of a bit.
    pub entropy: u32,
    /// The 64 by 64 resample, row by row.
    pub luma64: Vec<u8>,
}

impl FrameSignals {
    /// Whether the resample has 64 times 64 grey levels.
    pub open spec fn wf(&self) -> bool {
        self.luma64@.len() == 4096
    }
}

/// The thresholds of the classifier.
#[derive(Clone, Copy, Debug, PartialEq, Eq, Structural)]
pub struct SceneDetectionConfig {
    /// Frames less similar than this have changed, in millionths.
    pub ssim_threshold: u32,
    /// Hashes further apart than this show motion.
    pub phash_distance_threshold: u32,
    /// Entropies further apart than this show new content, in millionths of a bit.
    pub entropy_threshold: u32,
}

impl SceneDetectionConfig {
    pub open spec fn spec_default() -> SceneDetectionConfig {
        SceneDetectionConfig {
            ssim_threshold: 800_000,
            phash_distance_threshold: 10,
            entropy_threshold: 100_000,
        }
    }
}

impl Default for SceneDetectionConfig {
    fn default() -> (c: Self)
        ensures
            c == SceneDetectionConfig::spec_default(),
    {
        SceneDetectionConfig {
            ssim_threshold: 800_000,
            phash_distance_threshold: 10,
            entropy_threshold: 100_000,
        }
    }
}

/// A detected transition.
#[derive(Clone, Copy, Debug, PartialEq, Eq, Structural)]
pub struct SceneChange {
    /// The position of the later frame.
    pub frame_index: usize,
    pub timestamp_ns: i64,
    pub change_type: SceneChangeType,
    /// In millionths.
    pub confidence: u32,
    /// The structural similarity of the two frames, in millionths.
    pub ssim_score: Option<i32>,
    pub phash_distance: Option<u32>,
    /// In millionths of a bit.
    pub entropy_delta: Option<u32>,
}

/// The kind of transition that the three signals show, by the first rule
/// that applies; none where no threshold is crossed.
pub open spec fn classify(cfg: SceneDetectionConfig, ssim: int, distance: int, entropy_delta: int) -> Option<
    SceneChangeType,
> {
    if ssim < cfg.ssim_threshold && distance > 2 * cfg.phash_distance_threshold {
        Some(SceneChangeType::Cut)
    } else if ssim < cfg.ssim_threshold && entropy_delta > 2 * cfg.entropy_threshold {
        Some(SceneChangeType::ContentChange)
    } else if ssim < cfg.ssim_threshold {
        Some(SceneChangeType::Fade)
    } else if distance > cfg.phash_distance_threshold {
        Some(SceneChangeType::Motion)
    } else if entropy_delta > cfg.entropy_threshold {
        Some(SceneChangeType::ContentChange)
    } else {
        None
    }
}

/// The hash distance as a share of 32, at most 1.
pub open spec fn phash_term(distance: int) -> int {
    if distance >= 32 {
        UNIT as int
    } else {
        distance * (UNIT as int) / 32
    }
}

/// The entropy difference as a share of 4 bits, at most 1.
pub open spec fn entropy_term(entropy_delta: int) -> int {
    if entropy_delta / 4 >= UNIT as int {
        UNIT as int
    } else {
        entropy_delta / 4
    }
}

/// 0.4 of the dissimilarity, 0.4 of the hash term and 0.2 of the entropy term.
pub open spec fn base_confidence(ssim: int, distance: int, entropy_delta: int) -> int {
    (4 * ((UNIT as int) - ssim) + 4 * phash_term(distance) + 2 * entropy_term(entropy_delta)) / 10
}

/// The confidence of a transition: the base confidence, raised by half
/// where the similarity is under 0.5 or the hash distance over 20, and
/// limited to the scores between 0 and 1.
pub open spec fn scene_confidence(ssim: int, distance: int, entropy_delta: int) -> int {
    let base = base_confidence(ssim, distance, entropy_delta);
    clamp_unit(
        if ssim < 500_000 || distance > 20 {
            base * 3 / 2
        } else {
            base
        },
    )
}

/// The distance between two numbers.
pub open spec fn abs_diff(a: int, b: int) -> int {
    if a >= b {
        a - b
    } else {
        b - a
    }
}

/// The position of the nearest frame before `i` that could be loaded.
pub open spec fn previous_loaded(frames: Seq<Option<FrameSignals>>, i: int) -> Option<int>
    decreases i,
{
    if i <= 0 {
        None
    } else if frames[i - 1] is Some {
        Some(i - 1)
    } else {
        previous_loaded(frames, i - 1)
    }
}

/// The transition from `prev` to `cur`, the frame at position `index`.
pub open spec fn change_between(
    cfg: SceneDetectionConfig,
    prev: FrameSignals,
    cur: FrameSignals,
    index: int,
) -> Option<SceneChange> {
    let ssim = spec_ssim(prev.luma64@, cur.luma64@);
    let distance = spec_hamming(prev.phash, cur.phash) as int;
    let delta = abs_diff(cur.entropy as int, prev.entropy as int);
    match classify(cfg, ssim, distance, delta) {
        Some(kind) => Some(
            SceneChange {
                frame_index: index as usize,
                timestamp_ns: cur.timestamp_ns,
                change_type: kind,
                confidence: scene_confidence(ssim, distance, delta) as u32,
                ssim_score: Some(ssim as i32),
                phash_distance: Some(distance as u32),
                entropy_delta: Some(delta as u32),
            },
        ),
        None => None,
    }
}

/// The transition at position `i`: a frame that could be loaded is compared
/// with the nearest such frame before it.
pub open spec fn change_at(cfg: SceneDetectionConfig, frames: Seq<Option<FrameSignals>>, i: int) -> Option<
    SceneChange,
> {
    match (frames[i], previous_loaded(frames, i)) {
        (Some(cur), Some(j)) => change_between(cfg, frames[j]->Some_0, cur, i),
        _ => None,
    }
}

/// The transitions at the positions below `n`, in order.
pub open spec fn scene_changes(cfg: SceneDetectionConfig, frames: Seq<Option<FrameSignals>>, n: nat) -> Seq<
    SceneChange,
>
    decreases n,
{
    if n == 0 {
        Seq::empty()
    } else {
        let rest = scene_changes(cfg, frames, (n - 1) as nat);
        match change_at(cfg, frames, n - 1) {
            Some(c) => rest.push(c),
            None => rest,
        }
    }
}

/// Classifies the transitions between the frames of a segment.
#[derive(Clone, Copy, Debug)]
pub struct SceneDetector {
    pub config: SceneDetectionConfig,
}

impl SceneDetector {
    pub fn new(config: SceneDetectionConfig) -> (r: Result<SceneDetector>)
        ensures
            r is Ok,
            r->Ok_0.config == config,
    {
        Ok(SceneDetector { config })
    }

    /// The mean-threshold hash of the 8 by 8 resample of a frame.
    pub fn calculate_phash(&self, frame: &GrayFrame) -> (r: Result<u64>)
        requires
            frame.wf(),
        ensures
            r is Ok,
            exists|samples: Seq<u8>| samples.len() == 64 && is_phash_of(r->Ok_0, samples),
            frame.width == 8 && frame.height == 8 ==> is_phash_of(r->Ok_0, frame.pixels@),
    {
        let small = resize_luma(&frame.pixels, frame.width, frame.height, 8, 8);
        let h = phash_of_samples(&small);
        assert(small@.len() == 64 && is_phash_of(h, small@));
        Ok(h)
    }

    /// The structural similarity of the 64 by 64 resamples of two frames.
    pub fn calculate_ssim(&self, img1: &GrayFrame, img2: &GrayFrame) -> (r: Result<i32>)
        requires
            img1.wf(),
            img2.wf(),
        ensures
            r is Ok,
            -(UNIT as int) <= r->Ok_0 <= UNIT as int,
            img1.width == 64 && img1.height == 64 && img2.width == 64 && img2.height == 64
                ==> r->Ok_0 == spec_ssim(img1.pixels@, img2.pixels@),
    {
        let a = resize_luma(&img1.pixels, img1.width, img1.height, 64, 64);
        let b = resize_luma(&img2.pixels, img2.width, img2.height, 64, 64);
        Ok(ssim_of_samples(&a, &b))
    }

    /// The Hamming distance between two hashes.
    pub fn hamming_distance(&self, hash1: u64, hash2: u64) -> (d: u32)
        ensures
            d as nat == spec_hamming(hash1, hash2),
            d <= 64,
    {
        hamming_distance(hash1, hash2)
    }

    /// What the classifier keeps of a frame: its hash and its 64 by 64
    /// resample, with the time and the entropy that were measured for it.
    pub fn signals_of(&self, frame: &GrayFrame, timestamp_ns: i64, entropy: u32) -> (s: FrameSignals)
        requires
            frame.wf(),
        ensures
            s.wf(),
            s.timestamp_ns == timestamp_ns,
            s.entropy == entropy,
            exists|samples: Seq<u8>| samples.len() == 64 && is_phash_of(s.phash, samples),
            frame.width == 8 && frame.height == 8 ==> is_phash_of(s.phash, frame.pixels@),
            frame.width == 64 && frame.height == 64 ==> s.luma64@ == frame.pixels@,
    {
        let small = resize_luma(&frame.pixels, frame.width, frame.height, 8, 8);
        let phash = phash_of_samples(&small);
        assert(small@.len() == 64 && is_phash_of(phash, small@));
        let luma64 = resize_luma(&frame.pixels, frame.width, frame.height, 64, 64);
        FrameSignals { timestamp_ns, phash, entropy, luma64 }
    }

    /// The kind of transition that the three signals show.
    pub fn classify_scene_change(&self, ssim_score: i32, phash_distance: u32, entropy_delta: u32) -> (r:
        Option<SceneChangeType>)
        ensures
            r == classify(self.config, ssim_score as int, phash_distance as int, entropy_delta as int),
    {
        let below: bool = (ssim_score as i64) < (self.config.ssim_threshold as i64);
        if below {
            if (phash_distance as u64) > 2 * (self.config.phash_distance_threshold as u64) {
                Some(SceneChangeType::Cut)
            } else if (entropy_delta as u64) > 2 * (self.config.entropy_threshold as u64) {
                Some(SceneChangeType::ContentChange)
            } else {
                Some(SceneChangeType::Fade)
            }
        } else if phash_distance > self.config.phash_distance_threshold {
            Some(SceneChangeType::Motion)
        } else if entropy_delta > self.config.entropy_threshold {
            Some(SceneChangeType::ContentChange)
        } else {
            None
        }
    }

    /// The confidence of a transition with the given signals.
    pub fn calculate_confidence(&self, ssim_score: i32, phash_distance: u32, entropy_delta: u32) -> (c:
        u32)
        ensures
            c as int == scene_confidence(
                ssim_score as int,
                phash_distance as int,
                entropy_delta as int,
            ),
            c <= UNIT,
    {
        let pt: i64 = if phash_distance >= 32 {
            1_000_000
        } else {
            (phash_distance as i64) * 1_000_000 / 32
        };
        let quarter: i64 = (entropy_delta as i64) / 4;
        let et: i64 = if quarter >= 1_000_000 {
            1_000_000
        } else {
            quarter
        };
        let numerator: i64 = 4 * (1_000_000 - ssim_score as i64) + 4 * pt + 2 * et;
        if numerator <= 0 {
            return 0;
        }
        let base: i64 = numerator / 10;
        let boosted: i64 = if ssim_score < 500_000 || phash_distance > 20 {
            base * 3 / 2
        } else {
            base
        };
        if boosted > 1_000_000 {
            1_000_000
        } else {
            boosted as u32
        }
    }

    /// The transition from one frame to the next one that could be loaded.
    pub fn compare_frames(&self, prev: &FrameSignals, cur: &FrameSignals, index: usize) -> (r: Option<
        SceneChange,
    >)
        requires
            prev.wf(),
            cur.wf(),
        ensures
            r == change_between(self.config, *prev, *cur, index as int),
    {
        let ssim = ssim_of_samples(&prev.luma64, &cur.luma64);
        let distance = hamming_distance(prev.phash, cur.phash);
        let delta: u32 = if cur.entropy >= prev.entropy {
            cur.entropy - prev.entropy
        } else {
            prev.entropy - cur.entropy
        };
        match self.classify_scene_change(ssim, distance, delta) {
            Some(kind) => Some(
                SceneChange {
                    frame_index: index,
                    timestamp_ns: cur.timestamp_ns,
                    change_type: kind,
                    confidence: self.calculate_confidence(ssim, distance, delta),
                    ssim_score: Some(ssim),
                    phash_distance: Some(distance),
                    entropy_delta: Some(delta),
                },
            ),
            None => None,
        }
    }

    /// The transitions between the frames of a segment. A frame that could
    /// not be loaded is given as `None`: it is passed over, and the frame
    /// before it stays the one that the next is compared with.
    pub fn detect_scene_changes(&self, frames: &Vec<Option<FrameSignals>>) -> (r: Result<
        Vec<SceneChange>,
    >)
        requires
            forall|i: int| 0 <= i < frames.len() && frames@[i] is Some ==> (#[trigger] frames@[i])->Some_0.wf(),
        ensures
            r is Ok,
            r->Ok_0@ == scene_changes(self.config, frames@, frames@.len()),
    {
        let mut changes: Vec<SceneChange> = Vec::new();
        let mut prev: Option<usize> = None;
        let mut i: usize = 0;
        while i < frames.len()
            invariant
                i <= frames.len(),
                forall|k: int|
                    0 <= k < frames.len() && frames@[k] is Some ==> (#[trigger] frames@[k])->Some_0.wf(),
                changes@ == scene_changes(self.config, frames@, i as nat),
                match prev {
                    Some(j) => previous_loaded(frames@, i as int) == Some(j as int) && j < i
                        && frames@[j as int] is Some,
                    None => previous_loaded(frames@, i as int) is None,
                },
            decreases frames.len() - i,
        {
            match &frames[i] {
                Some(cur) => {
                    match prev {
                        Some(j) => {
                            match &frames[j] {
                                Some(before) => {
                                    match self.compare_frames(before, cur, i) {
                                        Some(change) => {
                                            changes.push(change);
                                        },
                                        None => {},
                                    }
                                },
                                None => {},
                            }
                        },
                        None => {},
                    }
                    prev = Some(i);
                },
                None => {},
            }
            i += 1;
        }
        Ok(changes)
    }
}

/// Identical signals: similarity 1, hash distance 0, entropy difference 0,
/// and no transition under any thresholds.
pub proof fn lemma_identical_frames(cfg: SceneDetectionConfig, s: FrameSignals, index: int)
    requires
        s.wf(),
        cfg.ssim_threshold <= UNIT,
    ensures
        spec_ssim(s.luma64@, s.luma64@) == UNIT as int,
        spec_hamming(s.phash, s.phash) == 0,
        abs_diff(s.entropy as int, s.entropy as int) == 0,
        change_between(cfg, s, s, index) is None,
{
    lemma_ssim_of_identical_samples(s.luma64@);
    lemma_hamming_same(s.phash);
}

/// Two hashes whose bits agree are the same hash.
proof fn lemma_same_bits(a: u64, b: u64)
    requires
        forall|i: u64| i < 64 ==> #[trigger] bit_at(a, i) == bit_at(b, i),
    ensures
        a == b,
{
    assert(bit_at(a, 0) == bit_at(b, 0));
    assert(bit_at(a, 1) == bit_at(b, 1));
    assert(bit_at(a, 2) == bit_at(b, 2));
    assert(bit_at(a, 3) == bit_at(b, 3));
    assert(bit_at(a, 4) == bit_at(b, 4));
    assert(bit_at(a, 5) == bit_at(b, 5));
    assert(bit_at(a, 6) == bit_at(b, 6));
    assert(bit_at(a, 7) == bit_at(b, 7));
    assert(bit_at(a, 8) == bit_at(b, 8));
    assert(bit_at(a, 9) == bit_at(b, 9));
    assert(bit_at(a, 10) == bit_at(b, 10));
    assert(bit_at(a, 11) == bit_at(b, 11));
    assert(bit_at(a, 12) == bit_at(b, 12));
    assert(bit_at(a, 13) == bit_at(b, 13));
    assert(bit_at(a, 14) == bit_at(b, 14));
    assert(bit_at(a, 15) == bit_at(b, 15));
    assert(bit_at(a, 16) == bit_at(b, 16));
    assert(bit_at(a, 17) == bit_at(b, 17));
    assert(bit_at(a, 18) == bit_at(b, 18));
    assert(bit_at(a, 19) == bit_at(b, 19));
    assert(bit_at(a, 20) == bit_at(b, 20));
    assert(bit_at(a, 21) == bit_at(b, 21));
    assert(bit_at(a, 22) == bit_at(b, 22));
    assert(bit_at(a, 23) == bit_at(b, 23));
    assert(bit_at(a, 24) == bit_at(b, 24));
    assert(bit_at(a, 25) == bit_at(b, 25));
    assert(bit_at(a, 26) == bit_at(b, 26));
    assert(bit_at(a, 27) == bit_at(b, 27));
    assert(bit_at(a, 28) == bit_at(b, 28));
    assert(bit_at(a, 29) == bit_at(b, 29));
    assert(bit_at(a, 30) == bit_at(b, 30));
    assert(bit_at(a, 31) == bit_at(b, 31));
    assert(bit_at(a, 32) == bit_at(b, 32));
    assert(bit_at(a, 33) == bit_at(b, 33));
    assert(bit_at(a, 34) == bit_at(b, 34));
    assert(bit_at(a, 35) == bit_at(b, 35));
    assert(bit_at(a, 36) == bit_at(b, 36));
    assert(bit_at(a, 37) == bit_at(b, 37));
    assert(bit_at(a, 38) == bit_at(b, 38));
    assert(bit_at(a, 39) == bit_at(b, 39));
    assert(bit_at(a, 40) == bit_at(b, 40));
    assert(bit_at(a, 41) == bit_at(b, 41));
    assert(bit_at(a, 42) == bit_at(b, 42));
    assert(bit_at(a, 43) == bit_at(b, 43));
    assert(bit_at(a, 44) == bit_at(b, 44));
    assert(bit_at(a, 45) == bit_at(b, 45));
    assert(bit_at(a, 46) == bit_at(b, 46));
    assert(bit_at(a, 47) == bit_at(b, 47));
    assert(bit_at(a, 48) == bit_at(b, 48));
    assert(bit_at(a, 49) == bit_at(b, 49));
    assert(bit_at(a, 50) == bit_at(b, 50));
    assert(bit_at(a, 51) == bit_at(b, 51));
    assert(bit_at(a, 52) == bit_at(b, 52));
    assert(bit_at(a, 53) == bit_at(b, 53));
    assert(bit_at(a, 54) == bit_at(b, 54));
    assert(bit_at(a, 55) == bit_at(b, 55));
    assert(bit_at(a, 56) == bit_at(b, 56));
    assert(bit_at(a, 57) == bit_at(b, 57));
    assert(bit_at(a, 58) == bit_at(b, 58));
    assert(bit_at(a, 59) == bit_at(b, 59));
    assert(bit_at(a, 60) == bit_at(b, 60));
    assert(bit_at(a, 61) == bit_at(b, 61));
    assert(bit_at(a, 62) == bit_at(b, 62));
    assert(bit_at(a, 63) == bit_at(b, 63));
    assert(a == b) by (bit_vector)
        requires
            ((a >> 0) & 1 == 1) == ((b >> 0) & 1 == 1),
            ((a >> 1) & 1 == 1) == ((b >> 1) & 1 == 1),
            ((a >> 2) & 1 == 1) == ((b >> 2) & 1 == 1),
            ((a >> 3) & 1 == 1) == ((b >> 3) & 1 == 1),
            ((a >> 4) & 1 == 1) == ((b >> 4) & 1 == 1),
            ((a >> 5) & 1 == 1) == ((b >> 5) & 1 == 1),
            ((a >> 6) & 1 == 1) == ((b >> 6) & 1 == 1),
            ((a >> 7) & 1 == 1) == ((b >> 7) & 1 == 1),
            ((a >> 8) & 1 == 1) == ((b >> 8) & 1 == 1),
            ((a >> 9) & 1 == 1) == ((b >> 9) & 1 == 1),
            ((a >> 10) & 1 == 1) == ((b >> 10) & 1 == 1),
            ((a >> 11) & 1 == 1) == ((b >> 11) & 1 == 1),
            ((a >> 12) & 1 == 1) == ((b >> 12) & 1 == 1),
            ((a >> 13) & 1 == 1) == ((b >> 13) & 1 == 1),
            ((a >> 14) & 1 == 1) == ((b >> 14) & 1 == 1),
            ((a >> 15) & 1 == 1) == ((b >> 15) & 1 == 1),
            ((a >> 16) & 1 == 1) == ((b >> 16) & 1 == 1),
            ((a >> 17) & 1 == 1) == ((b >> 17) & 1 == 1),
            ((a >> 18) & 1 == 1) == ((b >> 18) & 1 == 1),
            ((a >> 19) & 1 == 1) == ((b >> 19) & 1 == 1),
            ((a >> 20) & 1 == 1) == ((b >> 20) & 1 == 1),
            ((a >> 21) & 1 == 1) == ((b >> 21) & 1 == 1),
            ((a >> 22) & 1 == 1) == ((b >> 22) & 1 == 1),
            ((a >> 23) & 1 == 1) == ((b >> 23) & 1 == 1),
            ((a >> 24) & 1 == 1) == ((b >> 24) & 1 == 1),
            ((a >> 25) & 1 == 1) == ((b >> 25) & 1 == 1),
            ((a >> 26) & 1 == 1) == ((b >> 26) & 1 == 1),
            ((a >> 27) & 1 == 1) == ((b >> 27) & 1 == 1),
            ((a >> 28) & 1 == 1) == ((b >> 28) & 1 == 1),
            ((a >> 29) & 1 == 1) == ((b >> 29) & 1 == 1),
            ((a >> 30) & 1 == 1) == ((b >> 30) & 1 == 1),
            ((a >> 31) & 1 == 1) == ((b >> 31) & 1 == 1),
            ((a >> 32) & 1 == 1) == ((b >> 32) & 1 == 1),
            ((a >> 33) & 1 == 1) == ((b >> 33) & 1 == 1),
            ((a >> 34) & 1 == 1) == ((b >> 34) & 1 == 1),
            ((a >> 35) & 1 == 1) == ((b >> 35) & 1 == 1),
            ((a >> 36) & 1 == 1) == ((b >> 36) & 1 == 1),
            ((a >> 37) & 1 == 1) == ((b >> 37) & 1 == 1),
            ((a >> 38) & 1 == 1) == ((b >> 38) & 1 == 1),
            ((a >> 39) & 1 == 1) == ((b >> 39) & 1 == 1),
            ((a >> 40) & 1 == 1) == ((b >> 40) & 1 == 1),
            ((a >> 41) & 1 == 1) == ((b >> 41) & 1 == 1),
            ((a >> 42) & 1 == 1) == ((b >> 42) & 1 == 1),
            ((a >> 43) & 1 == 1) == ((b >> 43) & 1 == 1),
            ((a >> 44) & 1 == 1) == ((b >> 44) & 1 == 1),
            ((a >> 45) & 1 == 1) == ((b >> 45) & 1 == 1),
            ((a >> 46) & 1 == 1) == ((b >> 46) & 1 == 1),
            ((a >> 47) & 1 == 1) == ((b >> 47) & 1 == 1),
            ((a >> 48) & 1 == 1) == ((b >> 48) & 1 == 1),
            ((a >> 49) & 1 == 1) == ((b >> 49) & 1 == 1),
            ((a >> 50) & 1 == 1) == ((b >> 50) & 1 == 1),
            ((a >> 51) & 1 == 1) == ((b >> 51) & 1 == 1),
            ((a >> 52) & 1 == 1) == ((b >> 52) & 1 == 1),
            ((a >> 53) & 1 == 1) == ((b >> 53) & 1 == 1),
            ((a >> 54) & 1 == 1) == ((b >> 54) & 1 == 1),
            ((a >> 55) & 1 == 1) == ((b >> 55) & 1 == 1),
            ((a >> 56) & 1 == 1) == ((b >> 56) & 1 == 1),
            ((a >> 57) & 1 == 1) == ((b >> 57) & 1 == 1),
            ((a >> 58) & 1 == 1) == ((b >> 58) & 1 == 1),
            ((a >> 59) & 1 == 1) == ((b >> 59) & 1 == 1),
            ((a >> 60) & 1 == 1) == ((b >> 60) & 1 == 1),
            ((a >> 61) & 1 == 1) == ((b >> 61) & 1 == 1),
            ((a >> 62) & 1 == 1) == ((b >> 62) & 1 == 1),
            ((a >> 63) & 1 == 1) == ((b >> 63) & 1 == 1),
    ;
}

/// The same grey levels always give the same hash.
pub proof fn lemma_phash_is_determined(h1: u64, h2: u64, p: Seq<u8>)
    requires
        is_phash_of(h1, p),
        is_phash_of(h2, p),
    ensures
        h1 == h2,
{
    assert forall|i: u64| i < 64 implies #[trigger] bit_at(h1, i) == bit_at(h2, i) by {
        assert(bit_at(h1, i) == at_least_mean(p, i as int));
        assert(bit_at(h2, i) == at_least_mean(p, i as int));
    }
    lemma_same_bits(h1, h2);
}

} // verus!
