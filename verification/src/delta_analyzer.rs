//! Frame-over-frame analysis with temporal context.

use vstd::prelude::*;
use crate::error::Result;
use crate::events::{
    analysis_events,
    cache_after,
    cache_view,
    event_views,
    sans_ids,
    track_all,
    DetectedEvent,
    DetectedEventView,
    EventDetectionConfig,
    EventDetector,
    EventType,
};
use crate::keyvalue::with_entry;
use crate::ocr::{confident, filter_confident, OCRResult};
use crate::seqs::{
    count_if, keep_if, lemma_count_if_step, lemma_keep_if_all, lemma_keep_if_step, ordered_by,
    place_for,
};
use crate::storage::{EventParquetWriter, OCRParquetWriter};
use crate::text::{decimal_string, spec_decimal, str_eq};
use crate::units::{clamp_unit, lemma_ratio_bounds, ratio, UNIT};

verus! {

/// The width of the screen that is assumed where none is known, in pixels.
pub const DEFAULT_SCREEN_WIDTH: u32 = 1920;

/// The height of the screen that is assumed where none is known, in pixels.
pub const DEFAULT_SCREEN_HEIGHT: u32 = 1080;

/// How the delta analyzer works.
#[derive(Clone, Copy, Debug, PartialEq, Eq, Structural)]
pub struct DeltaAnalysisConfig {
    /// The longest time between two frames that are compared, in seconds.
    pub max_frame_gap_seconds: u32,
    /// The least OCR confidence of a region that is looked at, in millionths.
    pub min_ocr_confidence: u32,
    /// The least confidence of a reported event, in millionths.
    pub min_event_confidence: u32,
    /// Whether the confidence of an event depends on how often it was seen lately.
    pub enable_temporal_context: bool,
    /// How many earlier frames are remembered for that.
    pub max_previous_frames: usize,
}

impl DeltaAnalysisConfig {
    pub open spec fn spec_default() -> DeltaAnalysisConfig {
        DeltaAnalysisConfig {
            max_frame_gap_seconds: 10,
            min_ocr_confidence: 700_000,
            min_event_confidence: 600_000,
            enable_temporal_context: true,
            max_previous_frames: 5,
        }
    }
}

impl Default for DeltaAnalysisConfig {
    fn default() -> (c: Self)
        ensures
            c == DeltaAnalysisConfig::spec_default(),
    {
        DeltaAnalysisConfig {
            max_frame_gap_seconds: 10,
            min_ocr_confidence: 700_000,
            min_event_confidence: 600_000,
            enable_temporal_context: true,
            max_previous_frames: 5,
        }
    }
}

/// How often an event was seen in the remembered frames.
#[derive(Clone, Copy, Debug, PartialEq, Eq, Structural)]
pub enum TemporalPattern {
    /// In more than 0.7 of the frames.
    Frequent,
    /// In more than 0.3 of the frames.
    Occasional,
    Rare,
}

impl TemporalPattern {
    pub open spec fn spec_name(self) -> Seq<char> {
        match self {
            TemporalPattern::Frequent => "frequent_pattern"@,
            TemporalPattern::Occasional => "occasional_pattern"@,
            TemporalPattern::Rare => "rare_event"@,
        }
    }

    /// The name of the pattern.
    pub fn name(&self) -> (s: &'static str)
        ensures
            s@ == self.spec_name(),
    {
        match self {
            TemporalPattern::Frequent => "frequent_pattern",
            TemporalPattern::Occasional => "occasional_pattern",
            TemporalPattern::Rare => "rare_event",
        }
    }

    /// By how much the pattern changes the confidence of an event, in millionths.
    pub open spec fn spec_boost(self) -> int {
        match self {
            TemporalPattern::Frequent => 100_000,
            TemporalPattern::Occasional => 50_000,
            TemporalPattern::Rare => -50_000,
        }
    }
}

/// What the remembered frames say of an event.
#[derive(Clone, Copy, Debug, PartialEq, Eq, Structural)]
pub struct TemporalContext {
    pub pattern_type: TemporalPattern,
    /// The share of the frames in which the event was seen, in millionths.
    pub pattern_confidence: u32,
    pub recent_occurrences: usize,
    pub total_frames_analyzed: usize,
}

/// A frame that was analysed.
#[derive(Clone, Debug)]
pub struct FrameInfo {
    pub frame_id: String,
    /// In nanoseconds since the epoch.
    pub timestamp: i64,
    pub ocr_results: Vec<OCRResult>,
    pub detected_events: Vec<DetectedEvent>,
}

/// A remembered frame as a value.
pub struct FrameInfoView {
    pub frame_id: Seq<char>,
    pub timestamp: i64,
    pub ocr_results: Seq<OCRResult>,
    pub detected_events: Seq<DetectedEventView>,
}

impl View for FrameInfo {
    type V = FrameInfoView;

    open spec fn view(&self) -> FrameInfoView {
        FrameInfoView {
            frame_id: self.frame_id@,
            timestamp: self.timestamp,
            ocr_results: self.ocr_results@,
            detected_events: event_views(self.detected_events@),
        }
    }
}

/// The frames as values.
pub open spec fn frame_views(frames: Seq<FrameInfo>) -> Seq<FrameInfoView> {
    Seq::new(frames.len(), |i: int| frames[i]@)
}

/// The frames that are remembered, in the order of their times.
#[derive(Debug)]
pub struct FrameSequenceTracker {
    pub recent_frames: Vec<FrameInfo>,
    pub max_frames: usize,
}

/// Whether two events are of the same kind and about the same target.
pub open spec fn similar(a: DetectedEventView, b: DetectedEventView) -> bool {
    a.event_type == b.event_type && a.target == b.target
}

/// Whether the event is of the given kind and about the given target.
pub open spec fn is_about(e: DetectedEventView, kind: EventType, target: Seq<char>) -> bool {
    e.event_type == kind && e.target == target
}

/// Whether the frame holds an event of the given kind about the given target.
pub open spec fn seen_in(kind: EventType, target: Seq<char>) -> spec_fn(FrameInfoView) -> bool {
    |f: FrameInfoView|
        exists|i: int|
            0 <= i < f.detected_events.len() && is_about(#[trigger] f.detected_events[i], kind, target)
}

/// The pattern of an event that was seen in `matches` of `total` frames.
pub open spec fn pattern_of(matches: int, total: int) -> TemporalPattern {
    if 10 * matches > 7 * total {
        TemporalPattern::Frequent
    } else if 10 * matches > 3 * total {
        TemporalPattern::Occasional
    } else {
        TemporalPattern::Rare
    }
}

/// What the remembered frames say of an event; nothing where no frame is
/// remembered.
pub open spec fn context_of(frames: Seq<FrameInfoView>, e: DetectedEventView) -> Option<
    TemporalContext,
> {
    if frames.len() == 0 {
        None
    } else {
        let matches = count_if(frames, seen_in(e.event_type, e.target));
        Some(
            TemporalContext {
                pattern_type: pattern_of(matches as int, frames.len() as int),
                pattern_confidence: ratio(matches as int, frames.len() as int) as u32,
                recent_occurrences: matches as usize,
                total_frames_analyzed: frames.len() as usize,
            },
        )
    }
}

/// The confidence of an event after the remembered frames were taken into
/// account: more for a frequent or occasional event, less for a rare one,
/// and between 0 and 1 in any case.
pub open spec fn temporal_confidence(base: int, pattern: TemporalPattern) -> int {
    clamp_unit(base + pattern.spec_boost())
}

/// An event after the remembered frames were taken into account: the
/// confidence is adjusted and the pattern is noted; an event stays as it is
/// where no frame is remembered.
pub open spec fn enhanced(frames: Seq<FrameInfoView>, e: DetectedEventView) -> DetectedEventView {
    match context_of(frames, e) {
        Some(context) => DetectedEventView {
            confidence: temporal_confidence(e.confidence as int, context.pattern_type) as u32,
            metadata: with_entry(
                with_entry(e.metadata, "temporal_pattern"@, context.pattern_type.spec_name()),
                "pattern_confidence"@,
                spec_decimal(context.pattern_confidence as nat),
            ),
            ..e
        },
        None => e,
    }
}

/// The events after the remembered frames were taken into account, where
/// that is switched on.
pub open spec fn enhanced_all(enabled: bool, frames: Seq<FrameInfoView>, events: Seq<DetectedEventView>) -> Seq<
    DetectedEventView,
> {
    Seq::new(
        events.len(),
        |i: int|
            if enabled {
                enhanced(frames, events[i])
            } else {
                events[i]
            },
    )
}

/// Whether the confidence of an event reaches `min_confidence`.
pub open spec fn confident_event(min_confidence: u32) -> spec_fn(DetectedEventView) -> bool {
    |e: DetectedEventView| e.confidence >= min_confidence
}

/// The events that are reported for a frame: the detected events, adjusted
/// by the remembered frames, whose confidence reaches the configured minimum.
pub open spec fn reported(cfg: DeltaAnalysisConfig, frames: Seq<FrameInfoView>, detected: Seq<
    DetectedEventView,
>) -> Seq<DetectedEventView> {
    keep_if(
        enhanced_all(cfg.enable_temporal_context, frames, detected),
        confident_event(cfg.min_event_confidence),
    )
}

/// The number by which frames are ordered: their time.
pub open spec fn frame_key() -> spec_fn(FrameInfoView) -> int {
    |f: FrameInfoView| f.timestamp as int
}

/// The remembered frames after one more: the new frame is added, the
/// oldest entries leave where more than `max_frames` are held, and what
/// stays is put in the order of the times.
pub open spec fn frames_after(frames: Seq<FrameInfoView>, frame: FrameInfoView, max_frames: int) -> Seq<
    FrameInfoView,
> {
    let grown = frames.push(frame);
    ordered_by(
        if grown.len() > max_frames {
            grown.skip(grown.len() - max_frames)
        } else {
            grown
        },
        frame_key(),
    )
}

/// Whether the frame holds an event that is similar to `e`.
pub fn frame_has_similar(frame: &FrameInfo, e: &DetectedEvent) -> (r: bool)
    ensures
        r == seen_in(e.event_type, e.target@)(frame@),
{
    let mut i: usize = 0;
    while i < frame.detected_events.len()
        invariant
            i <= frame.detected_events.len(),
            forall|k: int|
                0 <= k < i ==> !is_about(#[trigger] frame@.detected_events[k], e.event_type, e.target@),
        decreases frame.detected_events.len() - i,
    {
        let other = &frame.detected_events[i];
        if e.event_type == other.event_type && str_eq(e.target.as_str(), other.target.as_str()) {
            assert(is_about(frame@.detected_events[i as int], e.event_type, e.target@));
            return true;
        }
        i += 1;
    }
    false
}

/// The frames in the order of their times; frames of the same time keep
/// their order.
pub fn order_frames(frames: Vec<FrameInfo>) -> (r: Vec<FrameInfo>)
    ensures
        frame_views(r@) == ordered_by(frame_views(frames@), frame_key()),
{
    let ghost all = frame_views(frames@);
    let ghost key = frame_key();
    let mut out: Vec<FrameInfo> = Vec::new();
    assert(frame_views(out@) =~= ordered_by(all.take(0), key));
    for item in it: frames
        invariant
            frame_views(it.seq()) == all,
            key == frame_key(),
            frame_views(out@) == ordered_by(all.take(it.index()), key),
    {
        let ghost done = frame_views(out@);
        let ghost i = it.index();
        assert(all.take(i + 1).drop_last() =~= all.take(i));
        assert(all[i] == item@);
        let mut p: usize = out.len();
        assert(done.take(p as int) =~= done);
        while p > 0 && out[p - 1].timestamp > item.timestamp
            invariant
                p <= out.len(),
                frame_views(out@) == done,
                key == frame_key(),
                place_for(done, key, item.timestamp as int) == place_for(
                    done.take(p as int),
                    key,
                    item.timestamp as int,
                ),
            decreases p,
        {
            assert(done.take(p as int).drop_last() =~= done.take(p - 1));
            p -= 1;
        }
        assert(place_for(done, key, item.timestamp as int) == p);
        let ghost v = item@;
        out.insert(p, item);
        assert(frame_views(out@) =~= done.insert(p as int, v));
    }
    assert(all.take(all.len() as int) =~= all);
    out
}

/// Compares the text regions of successive frames, adjusts the events by
/// what was seen lately and keeps the events that are sure enough.
#[derive(Debug)]
pub struct DeltaAnalyzer {
    pub event_detector: EventDetector,
    /// Where the reported events wait to be written.
    pub event_writer: EventParquetWriter,
    /// The store of the OCR results.
    pub ocr_reader: OCRParquetWriter,
    pub config: DeltaAnalysisConfig,
    pub frame_sequence: FrameSequenceTracker,
}

impl DeltaAnalyzer {
    /// An analyzer with the default configuration.
    pub fn new(ocr_storage_dir: &str, event_storage_dir: &str) -> (r: Result<DeltaAnalyzer>)
        ensures
            r is Ok,
            r->Ok_0.config == DeltaAnalysisConfig::spec_default(),
            r->Ok_0.frame_sequence.recent_frames@.len() == 0,
            r->Ok_0.event_writer.buffer.rows@.len() == 0,
    {
        DeltaAnalyzer::with_config(ocr_storage_dir, event_storage_dir, DeltaAnalysisConfig::default())
    }

    /// An analyzer with the given configuration that has seen no frame yet.
    /// Its event detector takes the thresholds of the configuration.
    pub fn with_config(ocr_storage_dir: &str, event_storage_dir: &str, config: DeltaAnalysisConfig) -> (r:
        Result<DeltaAnalyzer>)
        ensures
            r is Ok,
            r->Ok_0.config == config,
            r->Ok_0.event_detector.config == (EventDetectionConfig {
                min_ocr_confidence: config.min_ocr_confidence,
                min_event_confidence: config.min_event_confidence,
                max_frame_gap_seconds: config.max_frame_gap_seconds,
                ..EventDetectionConfig::spec_default()
            }),
            r->Ok_0.event_detector.previous_frame_cache@.len() == 0,
            r->Ok_0.frame_sequence.recent_frames@.len() == 0,
            r->Ok_0.frame_sequence.max_frames == config.max_previous_frames,
            r->Ok_0.event_writer.buffer.rows@.len() == 0,
            r->Ok_0.event_writer.output_dir@ == event_storage_dir@,
            r->Ok_0.ocr_reader.output_dir@ == ocr_storage_dir@,
    {
        let defaults = EventDetectionConfig::default();
        let detection = EventDetectionConfig {
            min_ocr_confidence: config.min_ocr_confidence,
            min_iou_threshold: defaults.min_iou_threshold,
            min_text_similarity: defaults.min_text_similarity,
            max_frame_gap_seconds: config.max_frame_gap_seconds,
            min_event_confidence: config.min_event_confidence,
        };
        let event_detector = match EventDetector::with_config(detection) {
            Ok(d) => d,
            Err(e) => {
                return Err(e);
            },
        };
        let event_writer = match EventParquetWriter::new(event_storage_dir) {
            Ok(w) => w,
            Err(e) => {
                return Err(e);
            },
        };
        let ocr_reader = match OCRParquetWriter::new(ocr_storage_dir) {
            Ok(w) => w,
            Err(e) => {
                return Err(e);
            },
        };
        Ok(
            DeltaAnalyzer {
                event_detector,
                event_writer,
                ocr_reader,
                config,
                frame_sequence: FrameSequenceTracker {
                    recent_frames: Vec::new(),
                    max_frames: config.max_previous_frames,
                },
            },
        )
    }

    /// Whether two events are of the same kind and about the same target.
    pub fn events_are_similar(&self, event1: &DetectedEvent, event2: &DetectedEvent) -> (r: bool)
        ensures
            r == similar(event1@, event2@),
    {
        event1.event_type == event2.event_type && str_eq(
            event1.target.as_str(),
            event2.target.as_str(),
        )
    }

    /// What the remembered frames say of an event.
    pub fn analyze_temporal_context(&self, event: &DetectedEvent) -> (r: Option<TemporalContext>)
        ensures
            r == context_of(frame_views(self.frame_sequence.recent_frames@), event@),
    {
        let frames = &self.frame_sequence.recent_frames;
        let total: usize = frames.len();
        if total == 0 {
            return None;
        }
        let ghost views = frame_views(frames@);
        let ghost seen = seen_in(event.event_type, event.target@);
        let mut matches: usize = 0;
        let mut i: usize = 0;
        while i < total
            invariant
                i <= total,
                total == frames.len(),
                views == frame_views(frames@),
                seen == seen_in(event.event_type, event.target@),
                matches as nat == count_if(views.take(i as int), seen),
                matches <= i,
            decreases total - i,
        {
            proof {
                lemma_count_if_step(views, seen, i as int);
            }
            if frame_has_similar(&frames[i], event) {
                matches += 1;
            }
            i += 1;
        }
        assert(views.take(total as int) =~= views);
        let pattern_type = if 10 * (matches as u128) > 7 * (total as u128) {
            TemporalPattern::Frequent
        } else if 10 * (matches as u128) > 3 * (total as u128) {
            TemporalPattern::Occasional
        } else {
            TemporalPattern::Rare
        };
        proof {
            lemma_ratio_bounds(matches as int, total as int);
            assert(matches as int * 1_000_000 <= 0xffff_ffff_ffff_ffff * 1_000_000) by (nonlinear_arith)
                requires
                    matches as int <= 0xffff_ffff_ffff_ffff,
            ;
        }
        let share: u32 = ((matches as u128 * 1_000_000) / (total as u128)) as u32;
        Some(
            TemporalContext {
                pattern_type,
                pattern_confidence: share,
                recent_occurrences: matches,
                total_frames_analyzed: total,
            },
        )
    }

    /// The confidence of an event after what the remembered frames say of it.
    pub fn calculate_temporal_confidence(&self, base_confidence: u32, context: &TemporalContext) -> (c:
        u32)
        ensures
            c as int == temporal_confidence(base_confidence as int, context.pattern_type),
            c <= UNIT,
    {
        let raised: i64 = match context.pattern_type {
            TemporalPattern::Frequent => base_confidence as i64 + 100_000,
            TemporalPattern::Occasional => base_confidence as i64 + 50_000,
            TemporalPattern::Rare => base_confidence as i64 - 50_000,
        };
        if raised < 0 {
            0
        } else if raised > UNIT as i64 {
            UNIT
        } else {
            raised as u32
        }
    }

    /// An event after the remembered frames were taken into account.
    pub fn enhance_event(&self, event: &DetectedEvent) -> (r: DetectedEvent)
        ensures
            r@ == enhanced(frame_views(self.frame_sequence.recent_frames@), event@),
    {
        let mut r = event.clone();
        match self.analyze_temporal_context(event) {
            Some(context) => {
                r.confidence = self.calculate_temporal_confidence(event.confidence, &context);
                r.metadata.insert(
                    "temporal_pattern",
                    String::from_str(context.pattern_type.name()),
                );
                r.metadata.insert("pattern_confidence", decimal_string(context.pattern_confidence as u64));
            },
            None => {},
        }
        r
    }

    /// The events after the remembered frames were taken into account.
    pub fn enhance_events_with_temporal_context(&self, events: &Vec<DetectedEvent>) -> (r: Result<
        Vec<DetectedEvent>,
    >)
        ensures
            r is Ok,
            event_views(r->Ok_0@) == enhanced_all(
                true,
                frame_views(self.frame_sequence.recent_frames@),
                event_views(events@),
            ),
    {
        let mut out: Vec<DetectedEvent> = Vec::new();
        let mut i: usize = 0;
        while i < events.len()
            invariant
                i <= events.len(),
                out.len() == i,
                forall|k: int|
                    0 <= k < i ==> out@[k]@ == enhanced(
                        frame_views(self.frame_sequence.recent_frames@),
                        events@[k]@,
                    ),
            decreases events.len() - i,
        {
            out.push(self.enhance_event(&events[i]));
            i += 1;
        }
        assert(event_views(out@) =~= enhanced_all(
            true,
            frame_views(self.frame_sequence.recent_frames@),
            event_views(events@),
        ));
        Ok(out)
    }

    /// Remembers a frame that was analysed.
    pub fn update_frame_sequence(
        &mut self,
        frame_id: &str,
        ocr_results: Vec<OCRResult>,
        events: Vec<DetectedEvent>,
        timestamp: i64,
    )
        ensures
            frame_views(final(self).frame_sequence.recent_frames@) == frames_after(
                frame_views(old(self).frame_sequence.recent_frames@),
                (FrameInfoView {
                    frame_id: frame_id@,
                    timestamp,
                    ocr_results: ocr_results@,
                    detected_events: event_views(events@),
                }),
                old(self).frame_sequence.max_frames as int,
            ),
            final(self).frame_sequence.max_frames == old(self).frame_sequence.max_frames,
            final(self).event_detector == old(self).event_detector,
            final(self).event_writer == old(self).event_writer,
            final(self).ocr_reader == old(self).ocr_reader,
            final(self).config == old(self).config,
    {
        let ghost before = frame_views(self.frame_sequence.recent_frames@);
        let info = FrameInfo {
            frame_id: String::from_str(frame_id),
            timestamp,
            ocr_results,
            detected_events: events,
        };
        let ghost grown = before.push(info@);
        let mut frames: Vec<FrameInfo> = Vec::new();
        frames.append(&mut self.frame_sequence.recent_frames);
        frames.push(info);
        assert(frame_views(frames@) =~= grown);
        assert(grown.len() == frames.len());
        let mut dropped: usize = 0;
        while frames.len() > self.frame_sequence.max_frames
            invariant
                frame_views(frames@) == grown.skip(dropped as int),
                frames.len() + dropped == grown.len(),
                grown.len() <= usize::MAX,
                dropped == 0 || frames.len() >= self.frame_sequence.max_frames,
                self.frame_sequence.max_frames == old(self).frame_sequence.max_frames,
                self.event_detector == old(self).event_detector,
                self.event_writer == old(self).event_writer,
                self.ocr_reader == old(self).ocr_reader,
                self.config == old(self).config,
            decreases frames.len(),
        {
            let ghost current = frame_views(frames@);
            let _ = frames.remove(0);
            assert(frame_views(frames@) =~= current.drop_first());
            assert(current.drop_first() =~= grown.skip(dropped + 1));
            dropped += 1;
        }
        assert(grown.skip(0) =~= grown);
        self.frame_sequence.recent_frames = order_frames(frames);
    }
}

/// A copy of the events.
pub fn clone_events(events: &Vec<DetectedEvent>) -> (r: Vec<DetectedEvent>)
    ensures
        event_views(r@) == event_views(events@),
{
    let mut r: Vec<DetectedEvent> = Vec::new();
    let mut i: usize = 0;
    while i < events.len()
        invariant
            i <= events.len(),
            r.len() == i,
            forall|k: int| 0 <= k < i ==> r@[k]@ == events@[k]@,
        decreases events.len() - i,
    {
        r.push(events[i].clone());
        i += 1;
    }
    assert(event_views(r@) =~= event_views(events@));
    r
}

/// What was known of a change of a field, for other parts of a program.
#[derive(Clone, Debug)]
pub struct FieldChangeInfo {
    pub field_id: String,
    pub value_from: String,
    pub value_to: String,
    /// In nanoseconds since the epoch.
    pub timestamp: i64,
    /// In millionths.
    pub confidence: u32,
}

/// What is known of a field, for other parts of a program.
#[derive(Clone, Debug)]
pub struct FieldStateInfo {
    pub field_id: String,
    pub current_value: String,
    /// In nanoseconds since the epoch.
    pub last_updated: i64,
    /// In millionths.
    pub confidence: u32,
    pub frame_id: String,
}

impl DeltaAnalyzer {
    /// The events that the detector finds in a frame and that are sure
    /// enough after the remembered frames were taken into account. The events
    /// are put behind those that wait to be written, and the frame is
    /// remembered. A frame without a region that reaches the least OCR
    /// confidence gives no event and changes nothing.
    pub fn analyze_frame(&mut self, frame_id: &str, ocr_results: Vec<OCRResult>, timestamp: i64) -> (r:
        Result<Vec<DetectedEvent>>)
        ensures
            r is Ok,
            final(self).config == old(self).config,
            final(self).ocr_reader == old(self).ocr_reader,
            final(self).event_writer.same_but_rows(&old(self).event_writer),
            final(self).frame_sequence.max_frames == old(self).frame_sequence.max_frames,
            final(self).event_detector.config == old(self).event_detector.config,
            final(self).event_detector.error_modal_detector == old(
                self,
            ).event_detector.error_modal_detector,
            confident(ocr_results@, old(self).config.min_ocr_confidence).len() == 0 ==> r->Ok_0@.len()
                == 0 && *final(self) == *old(self),
            confident(ocr_results@, old(self).config.min_ocr_confidence).len() > 0 ==> ({
                let high = confident(ocr_results@, old(self).config.min_ocr_confidence);
                let seen = confident(high, old(self).event_detector.config.min_ocr_confidence);
                &&& sans_ids(r->Ok_0@) == reported(
                    old(self).config,
                    frame_views(old(self).frame_sequence.recent_frames@),
                    analysis_events(
                        old(self).event_detector.config,
                        old(self).event_detector.error_modal_detector,
                        cache_view(old(self).event_detector.previous_frame_cache@),
                        high,
                        frame_id@,
                        timestamp,
                        DEFAULT_SCREEN_WIDTH,
                        DEFAULT_SCREEN_HEIGHT,
                    ),
                )
                &&& event_views(final(self).event_writer.buffer.rows@) == event_views(
                    old(self).event_writer.buffer.rows@,
                ) + event_views(r->Ok_0@)
                &&& frame_views(final(self).frame_sequence.recent_frames@) == frames_after(
                    frame_views(old(self).frame_sequence.recent_frames@),
                    (FrameInfoView {
                        frame_id: frame_id@,
                        timestamp,
                        ocr_results: high,
                        detected_events: event_views(r->Ok_0@),
                    }),
                    old(self).frame_sequence.max_frames as int,
                )
                &&& seen.len() > 0 ==> final(self).event_detector.field_tracker@ == track_all(
                    old(self).event_detector.field_tracker@,
                    seen,
                    frame_id@,
                    timestamp,
                ) && cache_view(final(self).event_detector.previous_frame_cache@) == cache_after(
                    cache_view(old(self).event_detector.previous_frame_cache@),
                    frame_id@,
                    seen,
                )
                &&& seen.len() == 0 ==> final(self).event_detector == old(self).event_detector
            }),
    {
        let high = filter_confident(&ocr_results, self.config.min_ocr_confidence);
        if high.len() == 0 {
            return Ok(Vec::new());
        }
        let ghost frames = frame_views(self.frame_sequence.recent_frames@);
        let ghost found = analysis_events(
            self.event_detector.config,
            self.event_detector.error_modal_detector,
            cache_view(self.event_detector.previous_frame_cache@),
            high@,
            frame_id@,
            timestamp,
            DEFAULT_SCREEN_WIDTH,
            DEFAULT_SCREEN_HEIGHT,
        );
        let detected = match self.event_detector.analyze_frame(
            frame_id,
            &high,
            timestamp,
            DEFAULT_SCREEN_WIDTH,
            DEFAULT_SCREEN_HEIGHT,
        ) {
            Ok(events) => events,
            Err(e) => {
                return Err(e);
            },
        };
        let enabled = self.config.enable_temporal_context;
        let ghost adjusted = enhanced_all(enabled, frames, found);
        let ghost keep = confident_event(self.config.min_event_confidence);
        let mut kept: Vec<DetectedEvent> = Vec::new();
        let mut i: usize = 0;
        assert(sans_ids(kept@) =~= keep_if(adjusted.take(0), keep));
        while i < detected.len()
            invariant
                i <= detected.len(),
                sans_ids(detected@) == found,
                frames == frame_views(self.frame_sequence.recent_frames@),
                enabled == self.config.enable_temporal_context,
                adjusted == enhanced_all(enabled, frames, found),
                keep == confident_event(self.config.min_event_confidence),
                sans_ids(kept@) == keep_if(adjusted.take(i as int), keep),
            decreases detected.len() - i,
        {
            proof {
                lemma_keep_if_step(adjusted, keep, i as int);
                assert(found[i as int] == detected@[i as int]@.sans_id());
            }
            let event = if enabled {
                self.enhance_event(&detected[i])
            } else {
                detected[i].clone()
            };
            assert(event@.sans_id() == adjusted[i as int]);
            if event.confidence >= self.config.min_event_confidence {
                let ghost before = sans_ids(kept@);
                kept.push(event);
                assert(sans_ids(kept@) =~= before.push(event@.sans_id()));
            }
            i += 1;
        }
        assert(adjusted.take(detected.len() as int) =~= adjusted);
        let ghost waiting = event_views(self.event_writer.buffer.rows@);
        let for_writer = clone_events(&kept);
        let ghost written = event_views(for_writer@);
        let _ = self.event_writer.write_events(for_writer);
        assert(event_views(self.event_writer.buffer.rows@) =~= waiting + written);
        let for_memory = clone_events(&kept);
        self.update_frame_sequence(frame_id, high, for_memory, timestamp);
        Ok(kept)
    }

    /// The changes of fields that were recorded so far, oldest first.
    pub fn get_field_changes(&self) -> (r: Vec<FieldChangeInfo>)
        ensures
            r@.len() == self.event_detector.field_tracker.change_history@.len(),
            forall|i: int|
                0 <= i < r@.len() ==> {
                    let c = self.event_detector.field_tracker.change_history@[i];
                    &&& (#[trigger] r@[i]).field_id == c.field_id
                    &&& r@[i].value_from == c.value_from
                    &&& r@[i].value_to == c.value_to
                    &&& r@[i].timestamp == c.timestamp
                    &&& r@[i].confidence == c.confidence
                },
    {
        let changes = self.event_detector.get_field_changes();
        let mut r: Vec<FieldChangeInfo> = Vec::new();
        let mut i: usize = 0;
        while i < changes.len()
            invariant
                i <= changes.len(),
                changes == &self.event_detector.field_tracker.change_history,
                r@.len() == i,
                forall|k: int|
                    0 <= k < i ==> {
                        let c = changes@[k];
                        &&& (#[trigger] r@[k]).field_id == c.field_id
                        &&& r@[k].value_from == c.value_from
                        &&& r@[k].value_to == c.value_to
                        &&& r@[k].timestamp == c.timestamp
                        &&& r@[k].confidence == c.confidence
                    },
            decreases changes.len() - i,
        {
            let c = &changes[i];
            r.push(
                FieldChangeInfo {
                    field_id: c.field_id.clone(),
                    value_from: c.value_from.clone(),
                    value_to: c.value_to.clone(),
                    timestamp: c.timestamp,
                    confidence: c.confidence,
                },
            );
            i += 1;
        }
        r
    }

    /// What is known of each field that was seen so far.
    pub fn get_current_field_states(&self) -> (r: Vec<FieldStateInfo>)
        ensures
            r@.len() == self.event_detector.field_tracker.fields@.len(),
            forall|i: int|
                0 <= i < r@.len() ==> {
                    let f = self.event_detector.field_tracker.fields@[i];
                    &&& (#[trigger] r@[i]).field_id == f.field_id
                    &&& r@[i].current_value == f.state.value
                    &&& r@[i].last_updated == f.state.last_updated
                    &&& r@[i].confidence == f.state.confidence
                    &&& r@[i].frame_id == f.state.frame_id
                },
    {
        let fields = self.event_detector.get_field_states();
        let mut r: Vec<FieldStateInfo> = Vec::new();
        let mut i: usize = 0;
        while i < fields.len()
            invariant
                i <= fields.len(),
                fields == &self.event_detector.field_tracker.fields,
                r@.len() == i,
                forall|k: int|
                    0 <= k < i ==> {
                        let f = fields@[k];
                        &&& (#[trigger] r@[k]).field_id == f.field_id
                        &&& r@[k].current_value == f.state.value
                        &&& r@[k].last_updated == f.state.last_updated
                        &&& r@[k].confidence == f.state.confidence
                        &&& r@[k].frame_id == f.state.frame_id
                    },
            decreases fields.len() - i,
        {
            let f = &fields[i];
            r.push(
                FieldStateInfo {
                    field_id: f.field_id.clone(),
                    current_value: f.state.value.clone(),
                    last_updated: f.state.last_updated,
                    confidence: f.state.confidence,
                    frame_id: f.state.frame_id.clone(),
                },
            );
            i += 1;
        }
        r
    }
}

/// Every reported event has a confidence between 0 and 1 and names at
/// least one frame as evidence, provided the detected events do.
pub proof fn lemma_reported_are_well_formed(
    cfg: DeltaAnalysisConfig,
    frames: Seq<FrameInfoView>,
    detected: Seq<DetectedEventView>,
)
    requires
        forall|i: int| 0 <= i < detected.len() ==> (#[trigger] detected[i]).well_formed(),
    ensures
        forall|k: int|
            0 <= k < reported(cfg, frames, detected).len() ==> (#[trigger] reported(
                cfg,
                frames,
                detected,
            )[k]).well_formed(),
{
    let adjusted = enhanced_all(cfg.enable_temporal_context, frames, detected);
    let wf = crate::events::is_well_formed();
    assert forall|i: int| 0 <= i < adjusted.len() implies wf(#[trigger] adjusted[i]) by {
        assert(detected[i].well_formed());
    }
    lemma_keep_if_all(adjusted, confident_event(cfg.min_event_confidence), wf);
    let out = reported(cfg, frames, detected);
    assert forall|k: int| 0 <= k < out.len() implies (#[trigger] out[k]).well_formed() by {
        assert(wf(out[k]));
    }
}

} // verus!
