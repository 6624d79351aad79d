//! Correlation of cursor, window and screen events within a sliding window.

use vstd::prelude::*;
use crate::seqs::{keep_if, lemma_keep_if_step};
use crate::clock::{elapsed_ms, milliseconds_between};
use crate::error::Result;
use crate::events::{DetectedEvent, EventType};
use crate::cursor::{ClickEvent, CursorPosition};
use crate::ids::fresh_id;
use crate::keyvalue::{optional_decimal, value_of, with_optional, Metadata};
use crate::navigation::{FocusEvent, TabState, WindowState};
use crate::text::{
    char_vec,
    option_view,
    parse_i32,
    parse_i32_chars,
    signed_decimal_string,
    spec_signed_decimal,
    str_eq,
    string_views,
};
use crate::units::{
    abs_int,
    clamp_unit,
    integer_sqrt,
    isqrt,
    lemma_isqrt_at_most,
    lemma_ratio_bounds,
    mean2,
    ratio,
    UNIT,
};

verus! {

/// The kinds of events that can be correlated.
#[derive(Clone, Copy, Debug, PartialEq, Eq, Structural)]
pub enum CorrelationEventType {
    CursorMovement,
    CursorClick,
    WindowChange,
    TabChange,
    FocusChange,
    FieldChange,
    ScreenChange,
    ErrorDisplay,
    ModalAppearance,
}

/// What a correlation says of its events.
#[derive(Clone, Copy, Debug, PartialEq, Eq, Structural)]
pub enum CorrelationType {
    /// An action of the cursor caused a change on the screen.
    CursorToScreenChange,
    /// A change on the screen was followed by a movement of the cursor.
    ScreenToCursorResponse,
    /// A series of navigation events.
    NavigationSequence,
    /// A complete interaction of the user.
    InteractionWorkflow,
    /// An error that was followed by an attempt to recover.
    ErrorRecovery,
}

impl CorrelationType {
    /// The name of the kind.
    pub open spec fn spec_name(self) -> Seq<char> {
        match self {
            CorrelationType::CursorToScreenChange => "CursorToScreenChange"@,
            CorrelationType::ScreenToCursorResponse => "ScreenToCursorResponse"@,
            CorrelationType::NavigationSequence => "NavigationSequence"@,
            CorrelationType::InteractionWorkflow => "InteractionWorkflow"@,
            CorrelationType::ErrorRecovery => "ErrorRecovery"@,
        }
    }

    /// The name of the kind.
    pub fn name(&self) -> (s: &'static str)
        ensures
            s@ == self.spec_name(),
    {
        match self {
            CorrelationType::CursorToScreenChange => "CursorToScreenChange",
            CorrelationType::ScreenToCursorResponse => "ScreenToCursorResponse",
            CorrelationType::NavigationSequence => "NavigationSequence",
            CorrelationType::InteractionWorkflow => "InteractionWorkflow",
            CorrelationType::ErrorRecovery => "ErrorRecovery",
        }
    }
}

/// Where on the screen an event took place.
#[derive(Clone, Copy, Debug, PartialEq, Eq, Structural)]
pub struct SpatialInfo {
    pub x: i32,
    pub y: i32,
    pub width: Option<u32>,
    pub height: Option<u32>,
    pub screen_id: Option<i32>,
}

/// An event of any source in the form in which it is correlated.
#[derive(Clone, Debug)]
pub struct CorrelationEvent {
    pub id: String,
    /// In nanoseconds since the epoch.
    pub timestamp: i64,
    pub event_type: CorrelationEventType,
    pub spatial_info: Option<SpatialInfo>,
    pub metadata: Metadata,
    /// In millionths.
    pub confidence: u32,
    pub frame_id: String,
}

/// An event of the buffer as a value.
pub struct CorrelationEventView {
    pub id: Seq<char>,
    pub timestamp: i64,
    pub event_type: CorrelationEventType,
    pub spatial_info: Option<SpatialInfo>,
    pub metadata: Seq<(Seq<char>, Seq<char>)>,
    pub confidence: u32,
    pub frame_id: Seq<char>,
}

impl View for CorrelationEvent {
    type V = CorrelationEventView;

    open spec fn view(&self) -> CorrelationEventView {
        CorrelationEventView {
            id: self.id@,
            timestamp: self.timestamp,
            event_type: self.event_type,
            spatial_info: self.spatial_info,
            metadata: self.metadata@,
            confidence: self.confidence,
            frame_id: self.frame_id@,
        }
    }
}

/// The events of the buffer as values.
pub open spec fn buffer_view(buffer: Seq<CorrelationEvent>) -> Seq<CorrelationEventView> {
    Seq::new(buffer.len(), |i: int| buffer[i]@)
}

/// What supports a correlation.
#[derive(Clone, Debug)]
pub struct CorrelationEvidence {
    /// The time between the two events, in milliseconds.
    pub temporal_proximity: i64,
    /// The distance between the two events, in thousandths of a pixel.
    pub spatial_proximity: Option<u64>,
    /// How strongly the first event causes the second, in millionths.
    pub causal_strength: u32,
    /// The known pattern that the correlation matches.
    pub pattern_match: Option<String>,
}

/// The evidence of a correlation as a value.
pub struct CorrelationEvidenceView {
    pub temporal_proximity: i64,
    pub spatial_proximity: Option<u64>,
    pub causal_strength: u32,
    pub pattern_match: Option<Seq<char>>,
}

/// A correlation of two or more events.
#[derive(Clone, Debug)]
pub struct CorrelationResult {
    pub correlation_id: String,
    /// The identifiers of the correlated events.
    pub correlated_events: Vec<String>,
    pub correlation_type: CorrelationType,
    /// In millionths.
    pub confidence: u32,
    pub evidence: CorrelationEvidence,
    /// When the correlation was found, in nanoseconds since the epoch.
    pub timestamp: i64,
}

/// A correlation as a value.
pub struct CorrelationResultView {
    pub correlation_id: Seq<char>,
    pub correlated_events: Seq<Seq<char>>,
    pub correlation_type: CorrelationType,
    pub confidence: u32,
    pub evidence: CorrelationEvidenceView,
    pub timestamp: i64,
}

impl CorrelationResultView {
    /// The same correlation under another identifier.
    pub open spec fn with_id(self, id: Seq<char>) -> CorrelationResultView {
        CorrelationResultView { correlation_id: id, ..self }
    }

    /// The correlation without its identifier.
    pub open spec fn sans_id(self) -> CorrelationResultView {
        self.with_id(Seq::empty())
    }
}

impl View for CorrelationResult {
    type V = CorrelationResultView;

    open spec fn view(&self) -> CorrelationResultView {
        CorrelationResultView {
            correlation_id: self.correlation_id@,
            correlated_events: string_views(self.correlated_events@),
            correlation_type: self.correlation_type,
            confidence: self.confidence,
            evidence: CorrelationEvidenceView {
                temporal_proximity: self.evidence.temporal_proximity,
                spatial_proximity: self.evidence.spatial_proximity,
                causal_strength: self.evidence.causal_strength,
                pattern_match: option_view(self.evidence.pattern_match),
            },
            timestamp: self.timestamp,
        }
    }
}

/// The correlations without their identifiers.
pub open spec fn sans_ids(results: Seq<CorrelationResult>) -> Seq<CorrelationResultView> {
    Seq::new(results.len(), |i: int| results[i]@.sans_id())
}

/// How the correlator works.
#[derive(Clone, Copy, Debug, PartialEq, Eq, Structural)]
pub struct CorrelationConfig {
    /// The longest time between two correlated events, in milliseconds.
    pub max_correlation_window_ms: i64,
    /// The least confidence of a reported correlation, in millionths.
    pub min_correlation_confidence: u32,
    pub enable_spatial_correlation: bool,
    pub enable_temporal_correlation: bool,
    pub enable_causal_correlation: bool,
    /// The greatest distance between two spatially correlated events, in pixels.
    pub spatial_correlation_radius: u32,
}

impl CorrelationConfig {
    pub open spec fn spec_default() -> CorrelationConfig {
        CorrelationConfig {
            max_correlation_window_ms: 2000,
            min_correlation_confidence: 600_000,
            enable_spatial_correlation: true,
            enable_temporal_correlation: true,
            enable_causal_correlation: true,
            spatial_correlation_radius: 50,
        }
    }
}

impl Default for CorrelationConfig {
    fn default() -> (c: Self)
        ensures
            c == CorrelationConfig::spec_default(),
    {
        CorrelationConfig {
            max_correlation_window_ms: 2000,
            min_correlation_confidence: 600_000,
            enable_spatial_correlation: true,
            enable_temporal_correlation: true,
            enable_causal_correlation: true,
            spatial_correlation_radius: 50,
        }
    }
}

/// What it means that an event of kind `first` is followed in time by one
/// of kind `second`.
pub open spec fn temporal_kind(first: CorrelationEventType, second: CorrelationEventType) -> Option<
    CorrelationType,
> {
    match (first, second) {
        (CorrelationEventType::CursorClick, CorrelationEventType::ScreenChange) => Some(
            CorrelationType::CursorToScreenChange,
        ),
        (CorrelationEventType::CursorClick, CorrelationEventType::WindowChange) => Some(
            CorrelationType::CursorToScreenChange,
        ),
        (CorrelationEventType::CursorClick, CorrelationEventType::TabChange) => Some(
            CorrelationType::CursorToScreenChange,
        ),
        (CorrelationEventType::WindowChange, CorrelationEventType::CursorMovement) => Some(
            CorrelationType::ScreenToCursorResponse,
        ),
        (CorrelationEventType::ErrorDisplay, CorrelationEventType::CursorClick) => Some(
            CorrelationType::ErrorRecovery,
        ),
        _ => None,
    }
}

/// What it means that events of these kinds take place near each other.
pub open spec fn spatial_kind(first: CorrelationEventType, second: CorrelationEventType) -> Option<
    CorrelationType,
> {
    match (first, second) {
        (CorrelationEventType::CursorClick, CorrelationEventType::FieldChange) => Some(
            CorrelationType::CursorToScreenChange,
        ),
        (CorrelationEventType::CursorMovement, CorrelationEventType::FieldChange) => Some(
            CorrelationType::CursorToScreenChange,
        ),
        _ => None,
    }
}

/// The known causal links, each with its strength in millionths.
pub open spec fn causal_link(first: CorrelationEventType, second: CorrelationEventType) -> Option<
    (CorrelationType, u32),
> {
    match (first, second) {
        (CorrelationEventType::CursorClick, CorrelationEventType::WindowChange) => Some(
            (CorrelationType::CursorToScreenChange, 900_000u32),
        ),
        (CorrelationEventType::CursorClick, CorrelationEventType::TabChange) => Some(
            (CorrelationType::CursorToScreenChange, 850_000u32),
        ),
        (CorrelationEventType::CursorClick, CorrelationEventType::FieldChange) => Some(
            (CorrelationType::CursorToScreenChange, 800_000u32),
        ),
        (CorrelationEventType::ErrorDisplay, CorrelationEventType::CursorMovement) => Some(
            (CorrelationType::ErrorRecovery, 700_000u32),
        ),
        (CorrelationEventType::ModalAppearance, CorrelationEventType::CursorClick) => Some(
            (CorrelationType::ErrorRecovery, 750_000u32),
        ),
        _ => None,
    }
}

/// What it means that an event of kind `first` is followed by one of kind `second`.
pub fn temporal_rule(first: CorrelationEventType, second: CorrelationEventType) -> (r: Option<
    CorrelationType,
>)
    ensures
        r == temporal_kind(first, second),
{
    match (first, second) {
        (CorrelationEventType::CursorClick, CorrelationEventType::ScreenChange) => Some(
            CorrelationType::CursorToScreenChange,
        ),
        (CorrelationEventType::CursorClick, CorrelationEventType::WindowChange) => Some(
            CorrelationType::CursorToScreenChange,
        ),
        (CorrelationEventType::CursorClick, CorrelationEventType::TabChange) => Some(
            CorrelationType::CursorToScreenChange,
        ),
        (CorrelationEventType::WindowChange, CorrelationEventType::CursorMovement) => Some(
            CorrelationType::ScreenToCursorResponse,
        ),
        (CorrelationEventType::ErrorDisplay, CorrelationEventType::CursorClick) => Some(
            CorrelationType::ErrorRecovery,
        ),
        _ => None,
    }
}

/// What it means that events of these kinds take place near each other.
pub fn spatial_rule(first: CorrelationEventType, second: CorrelationEventType) -> (r: Option<
    CorrelationType,
>)
    ensures
        r == spatial_kind(first, second),
{
    match (first, second) {
        (CorrelationEventType::CursorClick, CorrelationEventType::FieldChange) => Some(
            CorrelationType::CursorToScreenChange,
        ),
        (CorrelationEventType::CursorMovement, CorrelationEventType::FieldChange) => Some(
            CorrelationType::CursorToScreenChange,
        ),
        _ => None,
    }
}

/// The causal link from an event of kind `first` to one of kind `second`.
pub fn causal_rule(first: CorrelationEventType, second: CorrelationEventType) -> (r: Option<
    (CorrelationType, u32),
>)
    ensures
        r == causal_link(first, second),
{
    match (first, second) {
        (CorrelationEventType::CursorClick, CorrelationEventType::WindowChange) => Some(
            (CorrelationType::CursorToScreenChange, 900_000u32),
        ),
        (CorrelationEventType::CursorClick, CorrelationEventType::TabChange) => Some(
            (CorrelationType::CursorToScreenChange, 850_000u32),
        ),
        (CorrelationEventType::CursorClick, CorrelationEventType::FieldChange) => Some(
            (CorrelationType::CursorToScreenChange, 800_000u32),
        ),
        (CorrelationEventType::ErrorDisplay, CorrelationEventType::CursorMovement) => Some(
            (CorrelationType::ErrorRecovery, 700_000u32),
        ),
        (CorrelationEventType::ModalAppearance, CorrelationEventType::CursorClick) => Some(
            (CorrelationType::ErrorRecovery, 750_000u32),
        ),
        _ => None,
    }
}

/// The share of the window that is left after `dt` milliseconds, in
/// millionths: 1 for events at the same time, 0 at the end of the window.
pub open spec fn time_left(dt: int, window: int) -> int {
    ratio(window - dt, window)
}

/// The square of the distance between two places, in square pixels.
pub open spec fn distance_squared(a: SpatialInfo, b: SpatialInfo) -> int {
    (b.x - a.x) * (b.x - a.x) + (b.y - a.y) * (b.y - a.y)
}

/// The distance between two places, in thousandths of a pixel, rounded down.
pub open spec fn distance_milli(a: SpatialInfo, b: SpatialInfo) -> nat {
    isqrt((distance_squared(a, b) * 1_000_000) as nat)
}

/// The confidence of a temporal correlation: 0.6 of the time left and 0.4
/// of the mean confidence of the two events.
pub open spec fn temporal_confidence(dt: int, window: int, conf_a: int, conf_b: int) -> int {
    clamp_unit((6 * time_left(dt, window) + 4 * mean2(conf_a, conf_b)) / 10)
}

/// The confidence of a spatial correlation: 0.7 of the share of the radius
/// that is left and 0.3 of the mean confidence of the two events.
pub open spec fn spatial_confidence(d_milli: int, radius: int, conf_a: int, conf_b: int) -> int {
    clamp_unit((7 * ratio(1000 * radius - d_milli, 1000 * radius) + 3 * mean2(conf_a, conf_b)) / 10)
}

/// The confidence of a causal correlation: 0.5 of the strength of the link,
/// 0.3 of the time left and 0.2 of the mean confidence of the two events.
pub open spec fn causal_confidence(strength: int, dt: int, window: int, conf_a: int, conf_b: int) -> int {
    clamp_unit((5 * strength + 3 * time_left(dt, window) + 2 * mean2(conf_a, conf_b)) / 10)
}

/// The strength that is recorded for a temporal correlation.
pub const TEMPORAL_STRENGTH: u32 = 700_000;

/// The strength that is recorded for a spatial correlation.
pub const SPATIAL_STRENGTH: u32 = 800_000;

/// A correlation of two events, without identifier.
pub open spec fn pair_result(
    first: CorrelationEventView,
    second: CorrelationEventView,
    kind: CorrelationType,
    confidence: int,
    dt: int,
    distance: Option<u64>,
    strength: u32,
    now: i64,
) -> CorrelationResultView {
    CorrelationResultView {
        correlation_id: Seq::empty(),
        correlated_events: seq![first.id, second.id],
        correlation_type: kind,
        confidence: confidence as u32,
        evidence: CorrelationEvidenceView {
            temporal_proximity: dt as i64,
            spatial_proximity: distance,
            causal_strength: strength,
            pattern_match: None,
        },
        timestamp: now,
    }
}

/// The temporal correlation of two events, the first before the second in
/// the buffer: there is one where the second follows the first by more than
/// 0 and at most the window, their kinds form a meaningful pair and the
/// confidence reaches the configured minimum.
pub open spec fn temporal_result(cfg: CorrelationConfig, now: i64) -> spec_fn(
    CorrelationEventView,
    CorrelationEventView,
) -> Option<CorrelationResultView> {
    |first: CorrelationEventView, second: CorrelationEventView|
        {
            let dt = elapsed_ms(first.timestamp, second.timestamp);
            let confidence = temporal_confidence(
                dt,
                cfg.max_correlation_window_ms as int,
                first.confidence as int,
                second.confidence as int,
            );
            match temporal_kind(first.event_type, second.event_type) {
                Some(kind) => if 0 < dt <= cfg.max_correlation_window_ms && confidence
                    >= cfg.min_correlation_confidence {
                    Some(
                        pair_result(first, second, kind, confidence, dt, None, TEMPORAL_STRENGTH, now),
                    )
                } else {
                    None
                },
                None => None,
            }
        }
}

/// The spatial correlation of two events: there is one where both have a
/// place, the places are at most the radius apart, the kinds form a
/// meaningful pair and the confidence reaches the configured minimum.
pub open spec fn spatial_result(cfg: CorrelationConfig, now: i64) -> spec_fn(
    CorrelationEventView,
    CorrelationEventView,
) -> Option<CorrelationResultView> {
    |first: CorrelationEventView, second: CorrelationEventView|
        match (first.spatial_info, second.spatial_info, spatial_kind(
            first.event_type,
            second.event_type,
        )) {
            (Some(a), Some(b), Some(kind)) => {
                let d = distance_milli(a, b) as int;
                let confidence = spatial_confidence(
                    d,
                    cfg.spatial_correlation_radius as int,
                    first.confidence as int,
                    second.confidence as int,
                );
                if distance_squared(a, b) <= cfg.spatial_correlation_radius
                    * cfg.spatial_correlation_radius && confidence >= cfg.min_correlation_confidence {
                    Some(
                        pair_result(
                            first,
                            second,
                            kind,
                            confidence,
                            abs_int(elapsed_ms(first.timestamp, second.timestamp)),
                            Some(d as u64),
                            SPATIAL_STRENGTH,
                            now,
                        ),
                    )
                } else {
                    None
                }
            },
            _ => None,
        }
}

/// The causal correlation of two neighbours in the buffer: there is one
/// where a causal link leads from the kind of the first to the kind of the
/// second, the two are at most the window apart and the confidence reaches
/// the configured minimum.
pub open spec fn causal_result(cfg: CorrelationConfig, now: i64) -> spec_fn(
    CorrelationEventView,
    CorrelationEventView,
) -> Option<CorrelationResultView> {
    |first: CorrelationEventView, second: CorrelationEventView|
        match causal_link(first.event_type, second.event_type) {
            Some((kind, strength)) => {
                let dt = abs_int(elapsed_ms(first.timestamp, second.timestamp));
                let confidence = causal_confidence(
                    strength as int,
                    dt,
                    cfg.max_correlation_window_ms as int,
                    first.confidence as int,
                    second.confidence as int,
                );
                if dt <= cfg.max_correlation_window_ms && confidence
                    >= cfg.min_correlation_confidence {
                    Some(pair_result(first, second, kind, confidence, dt, None, strength, now))
                } else {
                    None
                }
            },
            None => None,
        }
}

/// The share of `whole` that `whole - part` is, in millionths; 0 where
/// `whole` is not positive or `part` exceeds it.
pub fn share_left(part: u64, whole: i64) -> (r: u32)
    ensures
        part as int <= whole ==> r as int == ratio(whole - part, whole as int),
        r <= UNIT,
{
    if whole <= 0 || part > whole as u64 {
        return 0;
    }
    let left: u64 = whole as u64 - part;
    proof {
        lemma_ratio_bounds(left as int, whole as int);
        assert(left as int * 1_000_000 <= 0xffff_ffff_ffff_ffff * 1_000_000) by (nonlinear_arith)
            requires
                left as int <= 0xffff_ffff_ffff_ffff,
        ;
    }
    ((left as u128 * 1_000_000) / (whole as u128)) as u32
}

/// A weighted sum of three scores, the weights in tenths, limited to 1.
fn blend3(w1: u64, s1: u64, w2: u64, s2: u64, w3: u64, s3: u64) -> (r: u32)
    requires
        w1 <= 10,
        w2 <= 10,
        w3 <= 10,
        s1 <= 0xffff_ffff,
        s2 <= 0xffff_ffff,
        s3 <= 0xffff_ffff,
    ensures
        r as int == clamp_unit((w1 * s1 + w2 * s2 + w3 * s3) / 10),
        r <= UNIT,
{
    proof {
        assert(w1 * s1 <= 10 * 0xffff_ffff && w2 * s2 <= 10 * 0xffff_ffff && w3 * s3 <= 10
            * 0xffff_ffff) by (nonlinear_arith)
            requires
                w1 <= 10,
                w2 <= 10,
                w3 <= 10,
                s1 <= 0xffff_ffff,
                s2 <= 0xffff_ffff,
                s3 <= 0xffff_ffff,
        ;
    }
    let b: u64 = (w1 * s1 + w2 * s2 + w3 * s3) / 10;
    if b > UNIT as u64 {
        UNIT
    } else {
        b as u32
    }
}

fn mean_confidence(a: u32, b: u32) -> (m: u64)
    ensures
        m as int == mean2(a as int, b as int),
        m <= 0xffff_ffff,
{
    (a as u64 + b as u64) / 2
}

fn make_result(
    first: &CorrelationEvent,
    second: &CorrelationEvent,
    kind: CorrelationType,
    confidence: u32,
    dt: i64,
    distance: Option<u64>,
    strength: u32,
    now: i64,
    id: String,
) -> (r: CorrelationResult)
    ensures
        r@ == pair_result(first@, second@, kind, confidence as int, dt as int, distance, strength, now)
            .with_id(id@),
{
    let mut ids: Vec<String> = Vec::new();
    ids.push(first.id.clone());
    ids.push(second.id.clone());
    let r = CorrelationResult {
        correlation_id: id,
        correlated_events: ids,
        correlation_type: kind,
        confidence,
        evidence: CorrelationEvidence {
            temporal_proximity: dt,
            spatial_proximity: distance,
            causal_strength: strength,
            pattern_match: None,
        },
        timestamp: now,
    };
    assert(r@.correlated_events =~= seq![first@.id, second@.id]);
    r
}

/// The temporal correlation of two events of the buffer, if there is one.
pub fn evaluate_temporal_correlation(
    cfg: &CorrelationConfig,
    first: &CorrelationEvent,
    second: &CorrelationEvent,
    now: i64,
) -> (r: Option<CorrelationResult>)
    ensures
        match temporal_result(*cfg, now)(first@, second@) {
            Some(v) => r is Some && r->Some_0@.sans_id() == v,
            None => r is None,
        },
{
    let dt = milliseconds_between(first.timestamp, second.timestamp);
    match temporal_rule(first.event_type, second.event_type) {
        Some(kind) => {
            if dt <= 0 || dt > cfg.max_correlation_window_ms {
                return None;
            }
            let left = share_left(dt as u64, cfg.max_correlation_window_ms);
            let confidence = blend3(
                6,
                left as u64,
                4,
                mean_confidence(first.confidence, second.confidence),
                0,
                0,
            );
            if confidence >= cfg.min_correlation_confidence {
                Some(
                    make_result(
                        first,
                        second,
                        kind,
                        confidence,
                        dt,
                        None,
                        TEMPORAL_STRENGTH,
                        now,
                        fresh_id(),
                    ),
                )
            } else {
                None
            }
        },
        None => None,
    }
}

/// The distance between two places, in thousandths of a pixel, and whether
/// it is at most `radius` pixels.
pub fn measure_distance(a: &SpatialInfo, b: &SpatialInfo, radius: u32) -> (r: (u64, bool))
    ensures
        r.0 as nat == distance_milli(*a, *b),
        r.1 == (distance_squared(*a, *b) <= radius * radius),
        r.1 ==> r.0 <= 1000 * radius,
{
    let dx: i128 = b.x as i128 - a.x as i128;
    let dy: i128 = b.y as i128 - a.y as i128;
    proof {
        let m: int = 0x1_0000_0000;
        assert(0 <= dx * dx <= m * m && 0 <= dy * dy <= m * m) by (nonlinear_arith)
            requires
                -m <= dx <= m,
                -m <= dy <= m,
        ;
        assert(0 <= radius as int * radius as int <= m * m) by (nonlinear_arith)
            requires
                0 <= radius as int <= m,
        ;
    }
    let d2: u128 = (dx * dx + dy * dy) as u128;
    let r2: u128 = (radius as u128) * (radius as u128);
    let d: u64 = integer_sqrt(d2 * 1_000_000);
    proof {
        if d2 <= r2 {
            assert(d2 * 1_000_000 <= (1000 * radius) * (1000 * radius)) by (nonlinear_arith)
                requires
                    d2 <= r2,
                    r2 == radius * radius,
            ;
            lemma_isqrt_at_most((d2 * 1_000_000) as nat, (1000 * radius) as nat);
        }
    }
    (d, d2 <= r2)
}

/// The spatial correlation of two events of the buffer, if there is one.
pub fn evaluate_spatial_correlation(
    cfg: &CorrelationConfig,
    first: &CorrelationEvent,
    second: &CorrelationEvent,
    now: i64,
) -> (r: Option<CorrelationResult>)
    ensures
        match spatial_result(*cfg, now)(first@, second@) {
            Some(v) => r is Some && r->Some_0@.sans_id() == v,
            None => r is None,
        },
{
    match (first.spatial_info, second.spatial_info, spatial_rule(first.event_type, second.event_type)) {
        (Some(a), Some(b), Some(kind)) => {
            let (d, near) = measure_distance(&a, &b, cfg.spatial_correlation_radius);
            if !near {
                return None;
            }
            let whole: i64 = 1000 * (cfg.spatial_correlation_radius as i64);
            let left = share_left(d, whole);
            let confidence = blend3(
                7,
                left as u64,
                3,
                mean_confidence(first.confidence, second.confidence),
                0,
                0,
            );
            if confidence >= cfg.min_correlation_confidence {
                let dt = milliseconds_between(first.timestamp, second.timestamp);
                let apart: i64 = if dt >= 0 {
                    dt
                } else {
                    -dt
                };
                Some(
                    make_result(
                        first,
                        second,
                        kind,
                        confidence,
                        apart,
                        Some(d),
                        SPATIAL_STRENGTH,
                        now,
                        fresh_id(),
                    ),
                )
            } else {
                None
            }
        },
        _ => None,
    }
}

/// The causal correlation of two neighbours in the buffer, if there is one.
pub fn evaluate_causal_correlation(
    cfg: &CorrelationConfig,
    first: &CorrelationEvent,
    second: &CorrelationEvent,
    now: i64,
) -> (r: Option<CorrelationResult>)
    ensures
        match causal_result(*cfg, now)(first@, second@) {
            Some(v) => r is Some && r->Some_0@.sans_id() == v,
            None => r is None,
        },
{
    match causal_rule(first.event_type, second.event_type) {
        Some((kind, strength)) => {
            let dt = milliseconds_between(first.timestamp, second.timestamp);
            let apart: i64 = if dt >= 0 {
                dt
            } else {
                -dt
            };
            if apart > cfg.max_correlation_window_ms {
                return None;
            }
            let left = share_left(apart as u64, cfg.max_correlation_window_ms);
            let confidence = blend3(
                5,
                strength as u64,
                3,
                left as u64,
                2,
                mean_confidence(first.confidence, second.confidence),
            );
            if confidence >= cfg.min_correlation_confidence {
                Some(make_result(first, second, kind, confidence, apart, None, strength, now, fresh_id()))
            } else {
                None
            }
        },
        None => None,
    }
}

/// What `f` gives for the pairs of events of the buffer, the earlier in the
/// buffer first, from the pair at `i` and `j` on: the pairs with the first
/// event at `i` in the order of their second events, then those with the
/// first event at `i + 1`, and so on.
pub open spec fn pairs_from(
    buf: Seq<CorrelationEventView>,
    f: spec_fn(CorrelationEventView, CorrelationEventView) -> Option<CorrelationResultView>,
    i: nat,
    j: nat,
) -> Seq<CorrelationResultView>
    decreases buf.len() - i, buf.len() - j,
{
    if i >= buf.len() {
        Seq::empty()
    } else if j >= buf.len() {
        pairs_from(buf, f, i + 1, i + 2)
    } else {
        (match f(buf[i as int], buf[j as int]) {
            Some(r) => seq![r],
            None => Seq::empty(),
        }) + pairs_from(buf, f, i, j + 1)
    }
}

/// What `f` gives for the pairs of neighbours in the buffer, from the pair
/// that begins at `i` on.
pub open spec fn neighbours_from(
    buf: Seq<CorrelationEventView>,
    f: spec_fn(CorrelationEventView, CorrelationEventView) -> Option<CorrelationResultView>,
    i: nat,
) -> Seq<CorrelationResultView>
    decreases buf.len() - i,
{
    if i + 1 >= buf.len() {
        Seq::empty()
    } else {
        (match f(buf[i as int], buf[i as int + 1]) {
            Some(r) => seq![r],
            None => Seq::empty(),
        }) + neighbours_from(buf, f, i + 1)
    }
}

/// The correlations, without identifiers, among the events of the buffer:
/// none for fewer than two events; else the temporal ones, the spatial ones
/// and the causal ones, each kind where it is switched on.
pub open spec fn correlations(cfg: CorrelationConfig, buf: Seq<CorrelationEventView>, now: i64) -> Seq<
    CorrelationResultView,
> {
    if buf.len() < 2 {
        Seq::empty()
    } else {
        (if cfg.enable_temporal_correlation {
            pairs_from(buf, temporal_result(cfg, now), 0, 1)
        } else {
            Seq::empty()
        }) + (if cfg.enable_spatial_correlation {
            pairs_from(buf, spatial_result(cfg, now), 0, 1)
        } else {
            Seq::empty()
        }) + (if cfg.enable_causal_correlation {
            neighbours_from(buf, causal_result(cfg, now), 0)
        } else {
            Seq::empty()
        })
    }
}

/// Whether a correlation names two events and has a confidence that
/// reaches the configured minimum and is at most 1.
pub open spec fn sound_result(cfg: CorrelationConfig) -> spec_fn(CorrelationResultView) -> bool {
    |r: CorrelationResultView|
        r.correlated_events.len() == 2 && cfg.min_correlation_confidence <= r.confidence <= UNIT
}

proof fn lemma_pairs_from_all(
    buf: Seq<CorrelationEventView>,
    f: spec_fn(CorrelationEventView, CorrelationEventView) -> Option<CorrelationResultView>,
    i: nat,
    j: nat,
    ok: spec_fn(CorrelationResultView) -> bool,
)
    requires
        forall|a: CorrelationEventView, b: CorrelationEventView|
            (#[trigger] f(a, b)) is Some ==> ok(f(a, b)->Some_0),
    ensures
        forall|k: int|
            0 <= k < pairs_from(buf, f, i, j).len() ==> ok(#[trigger] pairs_from(buf, f, i, j)[k]),
    decreases buf.len() - i, buf.len() - j,
{
    if i >= buf.len() {
        assert(pairs_from(buf, f, i, j).len() == 0);
    } else if j >= buf.len() {
        lemma_pairs_from_all(buf, f, i + 1, i + 2, ok);
        assert(pairs_from(buf, f, i, j) == pairs_from(buf, f, i + 1, i + 2));
    } else {
        lemma_pairs_from_all(buf, f, i, j + 1, ok);
        let found = f(buf[i as int], buf[j as int]);
        let head = match found {
            Some(r) => seq![r],
            None => Seq::empty(),
        };
        let tail = pairs_from(buf, f, i, j + 1);
        let all = pairs_from(buf, f, i, j);
        assert(all == head + tail);
        assert forall|k: int| 0 <= k < all.len() implies ok(#[trigger] all[k]) by {
            if k < head.len() {
                assert(all[k] == found->Some_0);
            } else {
                assert(all[k] == tail[k - head.len()]);
            }
        }
    }
}

proof fn lemma_neighbours_from_all(
    buf: Seq<CorrelationEventView>,
    f: spec_fn(CorrelationEventView, CorrelationEventView) -> Option<CorrelationResultView>,
    i: nat,
    ok: spec_fn(CorrelationResultView) -> bool,
)
    requires
        forall|a: CorrelationEventView, b: CorrelationEventView|
            (#[trigger] f(a, b)) is Some ==> ok(f(a, b)->Some_0),
    ensures
        forall|k: int|
            0 <= k < neighbours_from(buf, f, i).len() ==> ok(#[trigger] neighbours_from(buf, f, i)[k]),
    decreases buf.len() - i,
{
    if i + 1 < buf.len() {
        lemma_neighbours_from_all(buf, f, i + 1, ok);
        let found = f(buf[i as int], buf[i as int + 1]);
        let head = match found {
            Some(r) => seq![r],
            None => Seq::empty(),
        };
        let tail = neighbours_from(buf, f, i + 1);
        let all = neighbours_from(buf, f, i);
        assert(all == head + tail);
        assert forall|k: int| 0 <= k < all.len() implies ok(#[trigger] all[k]) by {
            if k < head.len() {
                assert(all[k] == found->Some_0);
            } else {
                assert(all[k] == tail[k - head.len()]);
            }
        }
    }
}

/// Every correlation that is found names two events and has a confidence
/// that reaches the configured minimum and is at most 1.
pub proof fn lemma_correlations_are_sound(cfg: CorrelationConfig, buf: Seq<CorrelationEventView>, now: i64)
    ensures
        forall|k: int|
            0 <= k < correlations(cfg, buf, now).len() ==> sound_result(cfg)(
                #[trigger] correlations(cfg, buf, now)[k],
            ),
{
    let ok = sound_result(cfg);
    let t = temporal_result(cfg, now);
    let s = spatial_result(cfg, now);
    let c = causal_result(cfg, now);
    assert forall|a: CorrelationEventView, b: CorrelationEventView| (#[trigger] t(a, b)) is Some implies ok(
        t(a, b)->Some_0,
    ) by {}
    assert forall|a: CorrelationEventView, b: CorrelationEventView| (#[trigger] s(a, b)) is Some implies ok(
        s(a, b)->Some_0,
    ) by {}
    assert forall|a: CorrelationEventView, b: CorrelationEventView| (#[trigger] c(a, b)) is Some implies ok(
        c(a, b)->Some_0,
    ) by {}
    lemma_pairs_from_all(buf, t, 0, 1, ok);
    lemma_pairs_from_all(buf, s, 0, 1, ok);
    lemma_neighbours_from_all(buf, c, 0, ok);
}

/// Where an event with time `ts` goes into the buffer: behind the last
/// event that is not later.
pub open spec fn insertion_point(buf: Seq<CorrelationEventView>, ts: i64) -> int
    decreases buf.len(),
{
    if buf.len() == 0 || buf.last().timestamp <= ts {
        buf.len() as int
    } else {
        insertion_point(buf.drop_last(), ts)
    }
}

/// The buffer with one more event, cut at its front to at most `capacity` events.
pub open spec fn buffer_after(buf: Seq<CorrelationEventView>, e: CorrelationEventView, capacity: int) -> Seq<
    CorrelationEventView,
> {
    let grown = buf.insert(insertion_point(buf, e.timestamp), e);
    if grown.len() > capacity {
        grown.skip(grown.len() - capacity)
    } else {
        grown
    }
}

/// Whether the events are in the order of their times.
pub open spec fn sorted_by_time(buf: Seq<CorrelationEventView>) -> bool {
    forall|i: int, j: int| 0 <= i < j < buf.len() ==> buf[i].timestamp <= buf[j].timestamp
}

/// The instant before which events are too old at `now`, in nanoseconds.
pub open spec fn cutoff_at(now: i64, window_ms: i64) -> int {
    now - window_ms * 1_000_000
}

/// Whether an event is not older than `cutoff`.
pub open spec fn since(cutoff: int) -> spec_fn(CorrelationEventView) -> bool {
    |e: CorrelationEventView| e.timestamp >= cutoff
}

/// The buffer without the events that are too old at `now`: those that
/// lie further back than the window. The others stay in their order,
/// wherever in the buffer they are.
pub open spec fn fresh_events(buf: Seq<CorrelationEventView>, now: i64, window_ms: i64) -> Seq<
    CorrelationEventView,
> {
    keep_if(buf, since(cutoff_at(now, window_ms)))
}

/// An event that is put in its place by time keeps a buffer in order, and
/// cutting the front does so too.
pub proof fn lemma_buffer_stays_sorted(buf: Seq<CorrelationEventView>, e: CorrelationEventView, capacity: int)
    requires
        sorted_by_time(buf),
        capacity >= 0,
    ensures
        sorted_by_time(buffer_after(buf, e, capacity)),
        buffer_after(buf, e, capacity).len() <= capacity,
{
    lemma_insertion_point(buf, e.timestamp);
}

/// Dropping the events that are too old keeps a buffer in order, and in a
/// buffer that is in order the events that are dropped are those at its
/// front.
pub proof fn lemma_fresh_events_of_sorted(buf: Seq<CorrelationEventView>, now: i64, window_ms: i64)
    requires
        sorted_by_time(buf),
    ensures
        sorted_by_time(fresh_events(buf, now, window_ms)),
        fresh_events(buf, now, window_ms) == buf.skip(
            buf.len() - fresh_events(buf, now, window_ms).len(),
        ),
    decreases buf.len(),
{
    let keep = since(cutoff_at(now, window_ms));
    if buf.len() > 0 {
        let init = buf.drop_last();
        lemma_fresh_events_of_sorted(init, now, window_ms);
        let rest = keep_if(init, keep);
        let all = keep_if(buf, keep);
        crate::seqs::lemma_keep_if_members(init, keep);
        if keep(buf.last()) {
            assert forall|i: int, j: int| 0 <= i < j < all.len() implies all[i].timestamp
                <= all[j].timestamp by {
                if j == rest.len() {
                    assert(rest.contains(rest[i]));
                    assert(init.contains(rest[i]));
                    let k = choose|k: int| 0 <= k < init.len() && init[k] == rest[i];
                    assert(buf[k] == init[k]);
                }
            }
            assert(all =~= buf.skip(buf.len() - all.len())) by {
                assert(rest == init.skip(init.len() - rest.len()));
                assert forall|k: int| 0 <= k < all.len() implies all[k] == buf.skip(
                    buf.len() - all.len(),
                )[k] by {
                    if k < rest.len() {
                        assert(rest[k] == init.skip(init.len() - rest.len())[k]);
                    }
                }
            }
        } else {
            // The last event is too old, so every event before it is too.
            assert(rest.len() == 0) by {
                if rest.len() > 0 {
                    assert(rest.contains(rest[0]));
                    assert(init.contains(rest[0]));
                    let k = choose|k: int| 0 <= k < init.len() && init[k] == rest[0];
                    assert(buf[k] == init[k]);
                    assert(buf[k].timestamp <= buf.last().timestamp);
                    assert(keep(rest[0]));
                }
            }
            assert(all =~= buf.skip(buf.len() - all.len()));
        }
    } else {
        assert(fresh_events(buf, now, window_ms) =~= buf.skip(0));
    }
}

proof fn lemma_insertion_point(buf: Seq<CorrelationEventView>, ts: i64)
    ensures
        0 <= insertion_point(buf, ts) <= buf.len(),
        forall|k: int| insertion_point(buf, ts) <= k < buf.len() ==> buf[k].timestamp > ts,
        insertion_point(buf, ts) > 0 ==> buf[insertion_point(buf, ts) - 1].timestamp <= ts,
    decreases buf.len(),
{
    if !(buf.len() == 0 || buf.last().timestamp <= ts) {
        let init = buf.drop_last();
        lemma_insertion_point(init, ts);
        let p = insertion_point(buf, ts);
        assert forall|k: int| p <= k < buf.len() implies buf[k].timestamp > ts by {
            if k < init.len() {
                assert(buf[k] == init[k]);
            }
        }
        if p > 0 {
            assert(buf[p - 1] == init[p - 1]);
        }
    }
}

/// The buffer after the events of `events` were put in, one after the other.
pub open spec fn buffer_after_all(
    buf: Seq<CorrelationEventView>,
    events: Seq<CorrelationEventView>,
    capacity: int,
) -> Seq<CorrelationEventView>
    decreases events.len(),
{
    if events.len() == 0 {
        buf
    } else {
        buffer_after(buffer_after_all(buf, events.drop_last(), capacity), events.last(), capacity)
    }
}

/// An event without its identifier.
pub open spec fn anonymous(e: CorrelationEventView) -> CorrelationEventView {
    CorrelationEventView { id: Seq::empty(), ..e }
}

/// The events of a buffer without their identifiers.
pub open spec fn anonymous_all(buf: Seq<CorrelationEventView>) -> Seq<CorrelationEventView> {
    Seq::new(buf.len(), |i: int| anonymous(buf[i]))
}

proof fn lemma_anonymous_insertion_point(buf: Seq<CorrelationEventView>, ts: i64)
    ensures
        insertion_point(anonymous_all(buf), ts) == insertion_point(buf, ts),
    decreases buf.len(),
{
    if !(buf.len() == 0 || buf.last().timestamp <= ts) {
        assert(anonymous_all(buf).drop_last() =~= anonymous_all(buf.drop_last()));
        lemma_anonymous_insertion_point(buf.drop_last(), ts);
    }
}

/// Where an event goes, and what is dropped for it, does not depend on
/// the identifiers.
pub proof fn lemma_anonymous_buffer_after(buf: Seq<CorrelationEventView>, e: CorrelationEventView, capacity: int)
    requires
        capacity >= 0,
    ensures
        anonymous_all(buffer_after(buf, e, capacity)) == buffer_after(
            anonymous_all(buf),
            anonymous(e),
            capacity,
        ),
{
    lemma_anonymous_insertion_point(buf, e.timestamp);
    lemma_insertion_point(buf, e.timestamp);
    let p = insertion_point(buf, e.timestamp);
    let grown = buf.insert(p, e);
    assert(anonymous_all(grown) =~= anonymous_all(buf).insert(p, anonymous(e)));
    if grown.len() > capacity {
        assert(anonymous_all(grown.skip(grown.len() - capacity)) =~= anonymous_all(grown).skip(
            grown.len() - capacity,
        ));
    }
}

/// The same for several events.
pub proof fn lemma_anonymous_buffer_after_all(
    buf: Seq<CorrelationEventView>,
    events: Seq<CorrelationEventView>,
    capacity: int,
)
    requires
        capacity >= 0,
    ensures
        anonymous_all(buffer_after_all(buf, events, capacity)) == buffer_after_all(
            anonymous_all(buf),
            anonymous_all(events),
            capacity,
        ),
    decreases events.len(),
{
    if events.len() > 0 {
        lemma_anonymous_buffer_after_all(buf, events.drop_last(), capacity);
        lemma_anonymous_buffer_after(
            buffer_after_all(buf, events.drop_last(), capacity),
            events.last(),
            capacity,
        );
        assert(anonymous_all(events).drop_last() =~= anonymous_all(events.drop_last()));
    }
}

/// Which events are too old does not depend on the identifiers.
pub proof fn lemma_anonymous_fresh_events(buf: Seq<CorrelationEventView>, now: i64, window_ms: i64)
    ensures
        anonymous_all(fresh_events(buf, now, window_ms)) == fresh_events(
            anonymous_all(buf),
            now,
            window_ms,
        ),
    decreases buf.len(),
{
    let keep = since(cutoff_at(now, window_ms));
    if buf.len() > 0 {
        lemma_anonymous_fresh_events(buf.drop_last(), now, window_ms);
        assert(anonymous_all(buf).drop_last() =~= anonymous_all(buf.drop_last()));
        assert(keep(anonymous_all(buf).last()) == keep(buf.last()));
        assert(anonymous_all(fresh_events(buf, now, window_ms)) =~= fresh_events(
            anonymous_all(buf),
            now,
            window_ms,
        ));
    } else {
        assert(anonymous_all(fresh_events(buf, now, window_ms)) =~= fresh_events(
            anonymous_all(buf),
            now,
            window_ms,
        ));
    }
}

/// How the places of correlated events relate.
#[derive(Clone, Copy, Debug, PartialEq, Eq, Structural)]
pub enum SpatialRelationship {
    SameLocation,
    /// The distance in pixels.
    NearbyLocation(u32),
    SequentialMovement,
    NoSpatialRelation,
}

/// What is known of the correlations of one kind.
#[derive(Clone, Debug)]
pub struct CorrelationPattern {
    /// The name of the kind.
    pub pattern_id: String,
    pub event_sequence: Vec<CorrelationEventType>,
    /// The times between the events of the last correlations, in
    /// milliseconds; at most 100 of them.
    pub typical_timing: Vec<i64>,
    pub spatial_relationship: Option<SpatialRelationship>,
    /// The mean confidence of the correlations, in millionths.
    pub confidence: u32,
    pub occurrence_count: u32,
}

/// What is known of a kind of correlation, as a value.
pub struct CorrelationPatternView {
    pub pattern_id: Seq<char>,
    pub event_sequence: Seq<CorrelationEventType>,
    pub typical_timing: Seq<i64>,
    pub spatial_relationship: Option<SpatialRelationship>,
    pub confidence: u32,
    pub occurrence_count: u32,
}

impl View for CorrelationPattern {
    type V = CorrelationPatternView;

    open spec fn view(&self) -> CorrelationPatternView {
        CorrelationPatternView {
            pattern_id: self.pattern_id@,
            event_sequence: self.event_sequence@,
            typical_timing: self.typical_timing@,
            spatial_relationship: self.spatial_relationship,
            confidence: self.confidence,
            occurrence_count: self.occurrence_count,
        }
    }
}

/// The patterns as values.
pub open spec fn pattern_views(patterns: Seq<CorrelationPattern>) -> Seq<CorrelationPatternView> {
    Seq::new(patterns.len(), |i: int| patterns[i]@)
}

/// How many times are kept for a pattern.
pub const MAX_TIMINGS: usize = 100;

/// The position of the first pattern with identifier `id`, or the number of patterns.
pub open spec fn pattern_position(patterns: Seq<CorrelationPatternView>, id: Seq<char>) -> int
    decreases patterns.len(),
{
    if patterns.len() == 0 || patterns[0].pattern_id == id {
        0
    } else {
        1 + pattern_position(patterns.drop_first(), id)
    }
}

proof fn lemma_pattern_position(patterns: Seq<CorrelationPatternView>, id: Seq<char>, i: int)
    requires
        0 <= i <= patterns.len(),
        forall|k: int| 0 <= k < i ==> patterns[k].pattern_id != id,
        i == patterns.len() || patterns[i].pattern_id == id,
    ensures
        pattern_position(patterns, id) == i,
    decreases i,
{
    if i > 0 {
        lemma_pattern_position(patterns.drop_first(), id, i - 1);
    }
}

/// The mean of `count` values, given the mean of all but the last and the last.
pub open spec fn rolling_mean(mean: int, count: int, value: int) -> int {
    (mean * (count - 1) + value) / count
}

/// The times of a pattern after one more: only the last 100 are kept.
pub open spec fn timing_after(timing: Seq<i64>, dt: i64) -> Seq<i64> {
    let grown = timing.push(dt);
    if grown.len() > MAX_TIMINGS {
        grown.drop_first()
    } else {
        grown
    }
}

/// The pattern after one more correlation of its kind: the counter goes up
/// by one unless it is at its greatest value, the confidence becomes the
/// mean over all correlations counted, and the time is recorded.
pub open spec fn pattern_after(p: CorrelationPatternView, r: CorrelationResultView) -> CorrelationPatternView {
    let count = if p.occurrence_count == u32::MAX {
        u32::MAX
    } else {
        (p.occurrence_count + 1) as u32
    };
    CorrelationPatternView {
        confidence: rolling_mean(p.confidence as int, count as int, r.confidence as int) as u32,
        occurrence_count: count,
        typical_timing: timing_after(p.typical_timing, r.evidence.temporal_proximity),
        ..p
    }
}

/// The pattern of a kind of which no correlation was seen yet.
pub open spec fn new_pattern(id: Seq<char>) -> CorrelationPatternView {
    CorrelationPatternView {
        pattern_id: id,
        event_sequence: Seq::empty(),
        typical_timing: Seq::empty(),
        spatial_relationship: None,
        confidence: 0,
        occurrence_count: 0,
    }
}

/// The patterns after one correlation.
pub open spec fn learn_one(patterns: Seq<CorrelationPatternView>, r: CorrelationResultView) -> Seq<
    CorrelationPatternView,
> {
    let id = r.correlation_type.spec_name();
    let i = pattern_position(patterns, id);
    if i < patterns.len() {
        patterns.update(i, pattern_after(patterns[i], r))
    } else {
        patterns.push(pattern_after(new_pattern(id), r))
    }
}

/// The patterns after the correlations, in order.
pub open spec fn learn_all(patterns: Seq<CorrelationPatternView>, results: Seq<CorrelationResultView>) -> Seq<
    CorrelationPatternView,
>
    decreases results.len(),
{
    if results.len() == 0 {
        patterns
    } else {
        learn_one(learn_all(patterns, results.drop_last()), results.last())
    }
}

/// The place that the notes of an event name: the numbers under "roi_x"
/// and "roi_y", with those under "roi_width" and "roi_height" where they
/// are numbers that are not negative.
pub open spec fn place_in_notes(notes: Seq<(Seq<char>, Seq<char>)>) -> Option<SpatialInfo> {
    match (value_of(notes, "roi_x"@), value_of(notes, "roi_y"@)) {
        (Some(xs), Some(ys)) => match (parse_i32(xs), parse_i32(ys)) {
            (Some(x), Some(y)) => match (value_of(notes, "roi_width"@), value_of(notes, "roi_height"@)) {
                (Some(ws), Some(hs)) => Some(
                    SpatialInfo {
                        x,
                        y,
                        width: extent_of(parse_i32(ws)),
                        height: extent_of(parse_i32(hs)),
                        screen_id: None,
                    },
                ),
                _ => None,
            },
            _ => None,
        },
        _ => None,
    }
}

/// A number as an extent, where it is not negative.
pub open spec fn extent_of(v: Option<i32>) -> Option<u32> {
    match v {
        Some(n) => if n >= 0 {
            Some(n as u32)
        } else {
            None
        },
        None => None,
    }
}

fn parse_note(notes: &Metadata, key: &str) -> (r: Option<Option<i32>>)
    ensures
        match value_of(notes@, key@) {
            Some(text) => r == Some(parse_i32(text)),
            None => r is None,
        },
{
    match notes.get(key) {
        Some(text) => Some(parse_i32_chars(&char_vec(text.as_str()))),
        None => None,
    }
}

fn as_extent(v: Option<i32>) -> (r: Option<u32>)
    ensures
        r == extent_of(v),
{
    match v {
        Some(n) => if n >= 0 {
            Some(n as u32)
        } else {
            None
        },
        None => None,
    }
}

/// The place that the notes of an event name.
pub fn extract_spatial_info_from_metadata(metadata: &Metadata) -> (r: Option<SpatialInfo>)
    ensures
        r == place_in_notes(metadata@),
{
    match (parse_note(metadata, "roi_x"), parse_note(metadata, "roi_y")) {
        (Some(Some(x)), Some(Some(y))) => {
            match (parse_note(metadata, "roi_width"), parse_note(metadata, "roi_height")) {
                (Some(w), Some(h)) => Some(
                    SpatialInfo { x, y, width: as_extent(w), height: as_extent(h), screen_id: None },
                ),
                _ => None,
            }
        },
        _ => None,
    }
}

/// The kind under which a detected event is correlated.
pub open spec fn correlated_kind(kind: EventType) -> CorrelationEventType {
    match kind {
        EventType::FieldChange => CorrelationEventType::FieldChange,
        EventType::ErrorDisplay => CorrelationEventType::ErrorDisplay,
        EventType::ModalAppearance => CorrelationEventType::ModalAppearance,
        _ => CorrelationEventType::ScreenChange,
    }
}

/// Joins cursor, window and screen events that belong together.
#[derive(Debug)]
pub struct EventCorrelator {
    pub config: CorrelationConfig,
    /// The events of the window, in the order of their times.
    pub event_buffer: Vec<CorrelationEvent>,
    /// What is known of each kind of correlation.
    pub correlation_patterns: Vec<CorrelationPattern>,
    /// The most events that are kept.
    pub max_buffer_size: usize,
}

impl EventCorrelator {
    /// A correlator with the default configuration.
    pub fn new() -> (c: EventCorrelator)
        ensures
            c.config == CorrelationConfig::spec_default(),
            c.event_buffer@.len() == 0,
            c.correlation_patterns@.len() == 0,
            c.max_buffer_size == 1000,
    {
        EventCorrelator::with_config(CorrelationConfig::default())
    }

    /// A correlator with the given configuration, without events.
    pub fn with_config(config: CorrelationConfig) -> (c: EventCorrelator)
        ensures
            c.config == config,
            c.event_buffer@.len() == 0,
            c.correlation_patterns@.len() == 0,
            c.max_buffer_size == 1000,
    {
        EventCorrelator {
            config,
            event_buffer: Vec::new(),
            correlation_patterns: Vec::new(),
            max_buffer_size: 1000,
        }
    }

    /// Whether nothing but the buffer differs between two states.
    pub open spec fn same_but_buffer(&self, other: &EventCorrelator) -> bool {
        &&& self.config == other.config
        &&& self.correlation_patterns == other.correlation_patterns
        &&& self.max_buffer_size == other.max_buffer_size
    }

    /// Puts an event into the buffer, at its place by time, and drops the
    /// oldest events where the buffer holds too many. A buffer that is in
    /// the order of time stays so.
    pub fn add_event(&mut self, event: CorrelationEvent)
        ensures
            buffer_view(final(self).event_buffer@) == buffer_after(
                buffer_view(old(self).event_buffer@),
                event@,
                old(self).max_buffer_size as int,
            ),
            sorted_by_time(buffer_view(old(self).event_buffer@)) ==> sorted_by_time(
                buffer_view(final(self).event_buffer@),
            ),
            final(self).same_but_buffer(old(self)),
    {
        proof {
            if sorted_by_time(buffer_view(self.event_buffer@)) {
                lemma_buffer_stays_sorted(
                    buffer_view(self.event_buffer@),
                    event@,
                    self.max_buffer_size as int,
                );
            }
        }
        let ghost before = buffer_view(self.event_buffer@);
        let ghost e = event@;
        let mut k: usize = self.event_buffer.len();
        assert(before.take(k as int) =~= before);
        while k > 0 && self.event_buffer[k - 1].timestamp > event.timestamp
            invariant
                k <= self.event_buffer.len(),
                before == buffer_view(self.event_buffer@),
                self.same_but_buffer(old(self)),
                e == event@,
                insertion_point(before, event.timestamp) == insertion_point(
                    before.take(k as int),
                    event.timestamp,
                ),
            decreases k,
        {
            assert(before.take(k as int).drop_last() =~= before.take(k - 1));
            k -= 1;
        }
        assert(insertion_point(before, e.timestamp) == k);
        self.event_buffer.insert(k, event);
        let ghost grown = before.insert(k as int, e);
        assert(buffer_view(self.event_buffer@) =~= grown);
        assert(grown.len() == self.event_buffer.len());
        let mut dropped: usize = 0;
        while self.event_buffer.len() > self.max_buffer_size
            invariant
                self.same_but_buffer(old(self)),
                dropped <= grown.len(),
                buffer_view(self.event_buffer@) == grown.skip(dropped as int),
                self.event_buffer.len() + dropped == grown.len(),
                grown.len() <= usize::MAX,
                dropped == 0 || self.event_buffer.len() >= self.max_buffer_size,
            decreases self.event_buffer.len(),
        {
            let ghost current = buffer_view(self.event_buffer@);
            let _ = self.event_buffer.remove(0);
            assert(buffer_view(self.event_buffer@) =~= current.drop_first());
            assert(current.drop_first() =~= grown.skip(dropped + 1));
            dropped += 1;
        }
        assert(grown.skip(0) =~= grown);
        assert(buffer_view(self.event_buffer@) == buffer_after(
            before,
            e,
            old(self).max_buffer_size as int,
        ));
    }

    /// Drops the events that are older than the window at
    /// `current_timestamp`, wherever in the buffer they are; the others stay
    /// in their order. A buffer that is in the order of time stays so.
    pub fn clean_old_events(&mut self, current_timestamp: i64)
        ensures
            buffer_view(final(self).event_buffer@) == fresh_events(
                buffer_view(old(self).event_buffer@),
                current_timestamp,
                old(self).config.max_correlation_window_ms,
            ),
            sorted_by_time(buffer_view(old(self).event_buffer@)) ==> sorted_by_time(
                buffer_view(final(self).event_buffer@),
            ),
            final(self).same_but_buffer(old(self)),
    {
        proof {
            if sorted_by_time(buffer_view(self.event_buffer@)) {
                lemma_fresh_events_of_sorted(
                    buffer_view(self.event_buffer@),
                    current_timestamp,
                    self.config.max_correlation_window_ms,
                );
            }
        }
        let cutoff: i128 = current_timestamp as i128 - (self.config.max_correlation_window_ms as i128)
            * 1_000_000;
        let ghost before = buffer_view(self.event_buffer@);
        let ghost keep = since(cutoff as int);
        let ghost mut seen: int = 0;
        let mut i: usize = 0;
        assert(before.take(0) =~= Seq::<CorrelationEventView>::empty());
        assert(buffer_view(self.event_buffer@).take(0) =~= keep_if(before.take(0), keep));
        assert(buffer_view(self.event_buffer@).skip(0) =~= before.skip(0));
        while i < self.event_buffer.len()
            invariant
                self.same_but_buffer(old(self)),
                cutoff as int == cutoff_at(current_timestamp, old(self).config.max_correlation_window_ms),
                keep == since(cutoff as int),
                i <= self.event_buffer.len(),
                0 <= seen <= before.len(),
                seen + (self.event_buffer.len() - i) == before.len(),
                buffer_view(self.event_buffer@).take(i as int) == keep_if(before.take(seen), keep),
                buffer_view(self.event_buffer@).skip(i as int) == before.skip(seen),
            decreases self.event_buffer.len() - i,
        {
            let ghost current = buffer_view(self.event_buffer@);
            proof {
                lemma_keep_if_step(before, keep, seen);
                assert(current[i as int] == current.skip(i as int)[0]);
                assert(before[seen] == before.skip(seen)[0]);
            }
            if (self.event_buffer[i].timestamp as i128) < cutoff {
                let _ = self.event_buffer.remove(i);
                proof {
                    let after = buffer_view(self.event_buffer@);
                    assert(after =~= current.remove(i as int));
                    assert(after.take(i as int) =~= current.take(i as int));
                    assert(after.skip(i as int) =~= current.skip(i as int).drop_first());
                    assert(before.skip(seen).drop_first() =~= before.skip(seen + 1));
                }
            } else {
                proof {
                    assert(current.take(i + 1) =~= current.take(i as int).push(current[i as int]));
                    assert(current.skip(i as int).drop_first() =~= current.skip(i + 1));
                    assert(before.skip(seen).drop_first() =~= before.skip(seen + 1));
                }
                i += 1;
            }
            proof {
                seen = seen + 1;
            }
        }
        assert(before.take(before.len() as int) =~= before);
        assert(buffer_view(self.event_buffer@).take(self.event_buffer.len() as int) =~= buffer_view(
            self.event_buffer@,
        ));
    }

    /// What is known of the correlations of the kind with the given name.
    fn pattern_index(&self, id: &str) -> (i: usize)
        ensures
            i as int == pattern_position(pattern_views(self.correlation_patterns@), id@),
            i <= self.correlation_patterns.len(),
    {
        let ghost views = pattern_views(self.correlation_patterns@);
        let mut i: usize = 0;
        while i < self.correlation_patterns.len()
            invariant
                i <= self.correlation_patterns.len(),
                views == pattern_views(self.correlation_patterns@),
                forall|k: int| 0 <= k < i ==> views[k].pattern_id != id@,
            decreases self.correlation_patterns.len() - i,
        {
            if str_eq(self.correlation_patterns[i].pattern_id.as_str(), id) {
                proof {
                    lemma_pattern_position(views, id@, i as int);
                }
                return i;
            }
            i += 1;
        }
        proof {
            lemma_pattern_position(views, id@, i as int);
        }
        i
    }

    /// How often each kind of correlation was seen, by the name of the kind.
    pub fn get_correlation_statistics(&self) -> (r: Vec<(String, u32)>)
        ensures
            r@.len() == self.correlation_patterns@.len(),
            forall|i: int|
                0 <= i < r@.len() ==> (#[trigger] r@[i]).0@ == self.correlation_patterns@[i].pattern_id@
                    && r@[i].1 == self.correlation_patterns@[i].occurrence_count,
    {
        let mut r: Vec<(String, u32)> = Vec::new();
        let mut i: usize = 0;
        while i < self.correlation_patterns.len()
            invariant
                i <= self.correlation_patterns.len(),
                r@.len() == i,
                forall|k: int|
                    0 <= k < i ==> (#[trigger] r@[k]).0@ == self.correlation_patterns@[k].pattern_id@
                        && r@[k].1 == self.correlation_patterns@[k].occurrence_count,
            decreases self.correlation_patterns.len() - i,
        {
            r.push(
                (
                    self.correlation_patterns[i].pattern_id.clone(),
                    self.correlation_patterns[i].occurrence_count,
                ),
            );
            i += 1;
        }
        r
    }

    /// The events of the window, oldest first.
    pub fn get_recent_events(&self) -> (r: &Vec<CorrelationEvent>)
        ensures
            r == &self.event_buffer,
    {
        &self.event_buffer
    }

    /// Forgets the events and the patterns.
    pub fn clear_data(&mut self)
        ensures
            final(self).event_buffer@.len() == 0,
            final(self).correlation_patterns@.len() == 0,
            final(self).config == old(self).config,
            final(self).max_buffer_size == old(self).max_buffer_size,
    {
        self.event_buffer.clear();
        self.correlation_patterns.clear();
    }

    /// Replaces the configuration.
    pub fn update_config(&mut self, config: CorrelationConfig)
        ensures
            final(self).config == config,
            final(self).event_buffer == old(self).event_buffer,
            final(self).correlation_patterns == old(self).correlation_patterns,
            final(self).max_buffer_size == old(self).max_buffer_size,
    {
        self.config = config;
    }
}

/// The correlations without identifiers, as far as they are found yet.
proof fn lemma_sans_ids_push(results: Seq<CorrelationResult>, r: CorrelationResult)
    ensures
        sans_ids(results.push(r)) == sans_ids(results).push(r@.sans_id()),
{
    assert(sans_ids(results.push(r)) =~= sans_ids(results).push(r@.sans_id()));
}

/// The temporal correlations among the events.
pub fn analyze_temporal_correlations(cfg: &CorrelationConfig, events: &Vec<CorrelationEvent>, now: i64) -> (r:
    Vec<CorrelationResult>)
    ensures
        sans_ids(r@) == pairs_from(buffer_view(events@), temporal_result(*cfg, now), 0, 1),
{
    let ghost buf = buffer_view(events@);
    let ghost f = temporal_result(*cfg, now);
    let mut found: Vec<CorrelationResult> = Vec::new();
    let n = events.len();
    let mut i: usize = 0;
    assert(sans_ids(found@) + pairs_from(buf, f, 0, 1) =~= pairs_from(buf, f, 0, 1));
    while i < n
        invariant
            i <= n,
            n == events.len(),
            buf == buffer_view(events@),
            f == temporal_result(*cfg, now),
            sans_ids(found@) + pairs_from(buf, f, i as nat, (i + 1) as nat) == pairs_from(buf, f, 0, 1),
        decreases n - i,
    {
        let mut j: usize = i + 1;
        while j < n
            invariant
                i < j <= n,
                n == events.len(),
                buf == buffer_view(events@),
                f == temporal_result(*cfg, now),
                sans_ids(found@) + pairs_from(buf, f, i as nat, j as nat) == pairs_from(buf, f, 0, 1),
            decreases n - j,
        {
            let ghost before = sans_ids(found@);
            let ghost rest = pairs_from(buf, f, i as nat, (j + 1) as nat);
            match evaluate_temporal_correlation(cfg, &events[i], &events[j], now) {
                Some(result) => {
                    proof {
                        lemma_sans_ids_push(found@, result);
                    }
                    found.push(result);
                    assert(before.push(result@.sans_id()) + rest =~= before + (seq![
                        result@.sans_id(),
                    ] + rest));
                },
                None => {
                    assert(Seq::<CorrelationResultView>::empty() + rest =~= rest);
                },
            }
            j += 1;
        }
        i += 1;
    }
    assert(sans_ids(found@) + Seq::<CorrelationResultView>::empty() =~= sans_ids(found@));
    found
}

/// The spatial correlations among the events.
pub fn analyze_spatial_correlations(cfg: &CorrelationConfig, events: &Vec<CorrelationEvent>, now: i64) -> (r:
    Vec<CorrelationResult>)
    ensures
        sans_ids(r@) == pairs_from(buffer_view(events@), spatial_result(*cfg, now), 0, 1),
{
    let ghost buf = buffer_view(events@);
    let ghost f = spatial_result(*cfg, now);
    let mut found: Vec<CorrelationResult> = Vec::new();
    let n = events.len();
    let mut i: usize = 0;
    assert(sans_ids(found@) + pairs_from(buf, f, 0, 1) =~= pairs_from(buf, f, 0, 1));
    while i < n
        invariant
            i <= n,
            n == events.len(),
            buf == buffer_view(events@),
            f == spatial_result(*cfg, now),
            sans_ids(found@) + pairs_from(buf, f, i as nat, (i + 1) as nat) == pairs_from(buf, f, 0, 1),
        decreases n - i,
    {
        let mut j: usize = i + 1;
        while j < n
            invariant
                i < j <= n,
                n == events.len(),
                buf == buffer_view(events@),
                f == spatial_result(*cfg, now),
                sans_ids(found@) + pairs_from(buf, f, i as nat, j as nat) == pairs_from(buf, f, 0, 1),
            decreases n - j,
        {
            let ghost before = sans_ids(found@);
            let ghost rest = pairs_from(buf, f, i as nat, (j + 1) as nat);
            match evaluate_spatial_correlation(cfg, &events[i], &events[j], now) {
                Some(result) => {
                    proof {
                        lemma_sans_ids_push(found@, result);
                    }
                    found.push(result);
                    assert(before.push(result@.sans_id()) + rest =~= before + (seq![
                        result@.sans_id(),
                    ] + rest));
                },
                None => {
                    assert(Seq::<CorrelationResultView>::empty() + rest =~= rest);
                },
            }
            j += 1;
        }
        i += 1;
    }
    assert(sans_ids(found@) + Seq::<CorrelationResultView>::empty() =~= sans_ids(found@));
    found
}

/// The causal correlations between neighbours among the events.
pub fn analyze_causal_correlations(cfg: &CorrelationConfig, events: &Vec<CorrelationEvent>, now: i64) -> (r:
    Vec<CorrelationResult>)
    ensures
        sans_ids(r@) == neighbours_from(buffer_view(events@), causal_result(*cfg, now), 0),
{
    let ghost buf = buffer_view(events@);
    let ghost f = causal_result(*cfg, now);
    let mut found: Vec<CorrelationResult> = Vec::new();
    let n = events.len();
    let mut i: usize = 0;
    assert(sans_ids(found@) + neighbours_from(buf, f, 0) =~= neighbours_from(buf, f, 0));
    while i < n && i + 1 < n
        invariant
            i <= n,
            n == events.len(),
            buf == buffer_view(events@),
            f == causal_result(*cfg, now),
            sans_ids(found@) + neighbours_from(buf, f, i as nat) == neighbours_from(buf, f, 0),
        decreases n - i,
    {
        let ghost before = sans_ids(found@);
        let ghost rest = neighbours_from(buf, f, (i + 1) as nat);
        match evaluate_causal_correlation(cfg, &events[i], &events[i + 1], now) {
            Some(result) => {
                proof {
                    lemma_sans_ids_push(found@, result);
                }
                found.push(result);
                assert(before.push(result@.sans_id()) + rest =~= before + (seq![result@.sans_id()]
                    + rest));
            },
            None => {
                assert(Seq::<CorrelationResultView>::empty() + rest =~= rest);
            },
        }
        i += 1;
    }
    assert(sans_ids(found@) + Seq::<CorrelationResultView>::empty() =~= sans_ids(found@));
    found
}

/// The correlations as values.
pub open spec fn result_views(results: Seq<CorrelationResult>) -> Seq<CorrelationResultView> {
    Seq::new(results.len(), |i: int| results[i]@)
}

/// A cursor position as an event.
pub open spec fn cursor_event(pos: CursorPosition, frame_id: Seq<char>, id: Seq<char>) -> CorrelationEventView {
    CorrelationEventView {
        id,
        timestamp: pos.timestamp,
        event_type: CorrelationEventType::CursorMovement,
        spatial_info: Some(
            SpatialInfo { x: pos.x, y: pos.y, width: None, height: None, screen_id: pos.screen_id },
        ),
        metadata: Seq::empty(),
        confidence: 900_000,
        frame_id,
    }
}

/// A click as an event.
pub open spec fn click_event(click: ClickEvent, frame_id: Seq<char>, id: Seq<char>) -> CorrelationEventView {
    CorrelationEventView {
        id,
        timestamp: click.position.timestamp,
        event_type: CorrelationEventType::CursorClick,
        spatial_info: Some(
            SpatialInfo {
                x: click.position.x,
                y: click.position.y,
                width: None,
                height: None,
                screen_id: click.position.screen_id,
            },
        ),
        metadata: seq![
            ("button"@, click.button.spec_name()),
            ("click_type"@, click.click_type.spec_name()),
            ("click_count"@, spec_signed_decimal(click.click_count as int)),
        ],
        confidence: click.confidence,
        frame_id,
    }
}

/// A change of window as an event.
pub open spec fn window_event(w: WindowState, frame_id: Seq<char>, id: Seq<char>) -> CorrelationEventView {
    CorrelationEventView {
        id,
        timestamp: w.timestamp,
        event_type: CorrelationEventType::WindowChange,
        spatial_info: None,
        metadata: with_optional(
            seq![
                ("app_name"@, w.app_name@),
                ("window_title"@, w.window_title@),
                ("process_id"@, spec_signed_decimal(w.process_id as int)),
            ],
            "bundle_id"@,
            option_view(w.bundle_id),
        ),
        confidence: 900_000,
        frame_id,
    }
}

/// A change of tab as an event.
pub open spec fn tab_event(t: TabState, frame_id: Seq<char>, id: Seq<char>) -> CorrelationEventView {
    CorrelationEventView {
        id,
        timestamp: t.timestamp,
        event_type: CorrelationEventType::TabChange,
        spatial_info: None,
        metadata: with_optional(
            with_optional(
                seq![("app_name"@, t.app_name@), ("tab_title"@, t.tab_title@)],
                "url"@,
                option_view(t.url),
            ),
            "tab_index"@,
            optional_decimal(t.tab_index),
        ),
        confidence: 850_000,
        frame_id,
    }
}

/// A change of focus as an event.
pub open spec fn focus_event(f: FocusEvent, frame_id: Seq<char>, id: Seq<char>) -> CorrelationEventView {
    CorrelationEventView {
        id,
        timestamp: f.timestamp,
        event_type: CorrelationEventType::FocusChange,
        spatial_info: None,
        metadata: with_optional(
            with_optional(
                seq![("to_app"@, f.to_app@), ("to_bundle_id"@, f.to_bundle_id@)],
                "from_app"@,
                option_view(f.from_app),
            ),
            "from_bundle_id"@,
            option_view(f.from_bundle_id),
        ),
        confidence: f.confidence,
        frame_id,
    }
}

/// The changes of focus as events of the buffer, without identifiers.
pub open spec fn focus_entries(history: Seq<FocusEvent>, frame_id: Seq<char>) -> Seq<CorrelationEventView> {
    Seq::new(history.len(), |i: int| focus_event(history[i], frame_id, Seq::empty()))
}

/// The clicks as events of the buffer, without identifiers.
pub open spec fn click_entries(clicks: Seq<ClickEvent>, frame_id: Seq<char>) -> Seq<CorrelationEventView> {
    Seq::new(clicks.len(), |i: int| click_event(clicks[i], frame_id, Seq::empty()))
}

/// The detected events as events of the buffer.
pub open spec fn screen_entries(events: Seq<crate::events::DetectedEventView>) -> Seq<CorrelationEventView> {
    Seq::new(events.len(), |i: int| screen_event(events[i]))
}

/// The buffer, without identifiers, after the state of the navigation was
/// put in: the window and the tab in front where they are known, then the
/// changes of focus.
pub open spec fn with_navigation(
    before: Seq<CorrelationEventView>,
    window: Option<WindowState>,
    tab: Option<TabState>,
    focus_history: Seq<FocusEvent>,
    frame_id: Seq<char>,
    capacity: int,
) -> Seq<CorrelationEventView> {
    let with_window = match window {
        Some(w) => buffer_after(before, window_event(w, frame_id, Seq::empty()), capacity),
        None => before,
    };
    let with_tab = match tab {
        Some(t) => buffer_after(with_window, tab_event(t, frame_id, Seq::empty()), capacity),
        None => with_window,
    };
    buffer_after_all(with_tab, focus_entries(focus_history, frame_id), capacity)
}

/// The buffer, without identifiers, after the state of the cursor was put
/// in: its position where it is known, then the clicks.
pub open spec fn with_cursor(
    before: Seq<CorrelationEventView>,
    position: Option<CursorPosition>,
    clicks: Seq<ClickEvent>,
    frame_id: Seq<char>,
    capacity: int,
) -> Seq<CorrelationEventView> {
    let with_position = match position {
        Some(p) => buffer_after(before, cursor_event(p, frame_id, Seq::empty()), capacity),
        None => before,
    };
    buffer_after_all(with_position, click_entries(clicks, frame_id), capacity)
}

/// A detected event as an event of the correlator: under its own
/// identifier, with the place that its notes name and its first frame of
/// evidence, or "unknown" where it has none.
pub open spec fn screen_event(e: crate::events::DetectedEventView) -> CorrelationEventView {
    CorrelationEventView {
        id: e.id,
        timestamp: e.timestamp,
        event_type: correlated_kind(e.event_type),
        spatial_info: place_in_notes(e.metadata),
        metadata: e.metadata,
        confidence: e.confidence,
        frame_id: if e.evidence_frames.len() > 0 {
            e.evidence_frames[0]
        } else {
            "unknown"@
        },
    }
}

/// A cursor position as an event under the identifier `id`.
pub fn make_cursor_event(cursor_pos: &CursorPosition, frame_id: &str, id: String) -> (e:
    CorrelationEvent)
    ensures
        e@ == cursor_event(*cursor_pos, frame_id@, id@),
{
    CorrelationEvent {
        id,
        timestamp: cursor_pos.timestamp,
        event_type: CorrelationEventType::CursorMovement,
        spatial_info: Some(
            SpatialInfo {
                x: cursor_pos.x,
                y: cursor_pos.y,
                width: None,
                height: None,
                screen_id: cursor_pos.screen_id,
            },
        ),
        metadata: Metadata::new(),
        confidence: 900_000,
        frame_id: String::from_str(frame_id),
    }
}

/// A click as an event under the identifier `id`.
pub fn make_click_event(click: &ClickEvent, frame_id: &str, id: String) -> (e: CorrelationEvent)
    ensures
        e@ == click_event(*click, frame_id@, id@),
{
    let mut metadata = Metadata::new();
    metadata.add("button", click.button.name());
    metadata.add("click_type", String::from_str(click.click_type.name()));
    metadata.add("click_count", signed_decimal_string(click.click_count as i64));
    let e = CorrelationEvent {
        id,
        timestamp: click.position.timestamp,
        event_type: CorrelationEventType::CursorClick,
        spatial_info: Some(
            SpatialInfo {
                x: click.position.x,
                y: click.position.y,
                width: None,
                height: None,
                screen_id: click.position.screen_id,
            },
        ),
        metadata,
        confidence: click.confidence,
        frame_id: String::from_str(frame_id),
    };
    assert(e@.metadata =~= click_event(*click, frame_id@, id@).metadata);
    e
}

/// A change of window as an event under the identifier `id`.
pub fn make_window_event(window_state: &WindowState, frame_id: &str, id: String) -> (e:
    CorrelationEvent)
    ensures
        e@ == window_event(*window_state, frame_id@, id@),
{
    let mut metadata = Metadata::new();
    metadata.add("app_name", window_state.app_name.clone());
    metadata.add("window_title", window_state.window_title.clone());
    metadata.add("process_id", signed_decimal_string(window_state.process_id as i64));
    assert(metadata@ =~= seq![
        ("app_name"@, window_state.app_name@),
        ("window_title"@, window_state.window_title@),
        ("process_id"@, spec_signed_decimal(window_state.process_id as int)),
    ]);
    metadata.add_optional("bundle_id", &window_state.bundle_id);
    CorrelationEvent {
        id,
        timestamp: window_state.timestamp,
        event_type: CorrelationEventType::WindowChange,
        spatial_info: None,
        metadata,
        confidence: 900_000,
        frame_id: String::from_str(frame_id),
    }
}

/// A change of tab as an event under the identifier `id`.
pub fn make_tab_event(tab_state: &TabState, frame_id: &str, id: String) -> (e: CorrelationEvent)
    ensures
        e@ == tab_event(*tab_state, frame_id@, id@),
{
    let mut metadata = Metadata::new();
    metadata.add("app_name", tab_state.app_name.clone());
    metadata.add("tab_title", tab_state.tab_title.clone());
    assert(metadata@ =~= seq![("app_name"@, tab_state.app_name@), ("tab_title"@, tab_state.tab_title@)]);
    metadata.add_optional("url", &tab_state.url);
    match tab_state.tab_index {
        Some(index) => {
            metadata.add("tab_index", signed_decimal_string(index as i64));
        },
        None => {},
    }
    CorrelationEvent {
        id,
        timestamp: tab_state.timestamp,
        event_type: CorrelationEventType::TabChange,
        spatial_info: None,
        metadata,
        confidence: 850_000,
        frame_id: String::from_str(frame_id),
    }
}

/// A change of focus as an event under the identifier `id`.
pub fn make_focus_event(focus: &FocusEvent, frame_id: &str, id: String) -> (e: CorrelationEvent)
    ensures
        e@ == focus_event(*focus, frame_id@, id@),
{
    let mut metadata = Metadata::new();
    metadata.add("to_app", focus.to_app.clone());
    metadata.add("to_bundle_id", focus.to_bundle_id.clone());
    assert(metadata@ =~= seq![("to_app"@, focus.to_app@), ("to_bundle_id"@, focus.to_bundle_id@)]);
    metadata.add_optional("from_app", &focus.from_app);
    metadata.add_optional("from_bundle_id", &focus.from_bundle_id);
    CorrelationEvent {
        id,
        timestamp: focus.timestamp,
        event_type: CorrelationEventType::FocusChange,
        spatial_info: None,
        metadata,
        confidence: focus.confidence,
        frame_id: String::from_str(frame_id),
    }
}

/// A detected event as an event of the correlator.
pub fn make_screen_event(detected_event: &DetectedEvent) -> (e: CorrelationEvent)
    ensures
        e@ == screen_event(detected_event@),
{
    let event_type = match detected_event.event_type {
        EventType::FieldChange => CorrelationEventType::FieldChange,
        EventType::ErrorDisplay => CorrelationEventType::ErrorDisplay,
        EventType::ModalAppearance => CorrelationEventType::ModalAppearance,
        _ => CorrelationEventType::ScreenChange,
    };
    let frame_id = if detected_event.evidence_frames.len() > 0 {
        detected_event.evidence_frames[0].clone()
    } else {
        String::from_str("unknown")
    };
    CorrelationEvent {
        id: detected_event.id.clone(),
        timestamp: detected_event.timestamp,
        event_type,
        spatial_info: extract_spatial_info_from_metadata(&detected_event.metadata),
        metadata: detected_event.metadata.clone(),
        confidence: detected_event.confidence,
        frame_id,
    }
}

impl EventCorrelator {
    /// Takes a cursor position into the buffer, under a fresh identifier.
    pub fn add_cursor_event(&mut self, cursor_pos: &CursorPosition, frame_id: &str)
        ensures
            exists|id: Seq<char>|
                buffer_view(final(self).event_buffer@) == buffer_after(
                    buffer_view(old(self).event_buffer@),
                    #[trigger] cursor_event(*cursor_pos, frame_id@, id),
                    old(self).max_buffer_size as int,
                ),
            anonymous_all(buffer_view(final(self).event_buffer@)) == buffer_after(
                anonymous_all(buffer_view(old(self).event_buffer@)),
                cursor_event(*cursor_pos, frame_id@, Seq::empty()),
                old(self).max_buffer_size as int,
            ),
            final(self).same_but_buffer(old(self)),
    {
        let event = make_cursor_event(cursor_pos, frame_id, fresh_id());
        let ghost id = event@.id;
        self.add_event(event);
        assert(buffer_view(self.event_buffer@) == buffer_after(
            buffer_view(old(self).event_buffer@),
            cursor_event(*cursor_pos, frame_id@, id),
            old(self).max_buffer_size as int,
        ));
        proof {
            lemma_anonymous_buffer_after(
                buffer_view(old(self).event_buffer@),
                cursor_event(*cursor_pos, frame_id@, id),
                old(self).max_buffer_size as int,
            );
        }
    }

    /// Takes a click into the buffer, under a fresh identifier.
    pub fn add_click_event(&mut self, click: &ClickEvent, frame_id: &str)
        ensures
            exists|id: Seq<char>|
                buffer_view(final(self).event_buffer@) == buffer_after(
                    buffer_view(old(self).event_buffer@),
                    #[trigger] click_event(*click, frame_id@, id),
                    old(self).max_buffer_size as int,
                ),
            anonymous_all(buffer_view(final(self).event_buffer@)) == buffer_after(
                anonymous_all(buffer_view(old(self).event_buffer@)),
                click_event(*click, frame_id@, Seq::empty()),
                old(self).max_buffer_size as int,
            ),
            final(self).same_but_buffer(old(self)),
    {
        let event = make_click_event(click, frame_id, fresh_id());
        let ghost id = event@.id;
        self.add_event(event);
        assert(buffer_view(self.event_buffer@) == buffer_after(
            buffer_view(old(self).event_buffer@),
            click_event(*click, frame_id@, id),
            old(self).max_buffer_size as int,
        ));
        proof {
            lemma_anonymous_buffer_after(
                buffer_view(old(self).event_buffer@),
                click_event(*click, frame_id@, id),
                old(self).max_buffer_size as int,
            );
        }
    }

    /// Takes a change of window into the buffer, under a fresh identifier.
    pub fn add_window_change_event(&mut self, window_state: &WindowState, frame_id: &str)
        ensures
            exists|id: Seq<char>|
                buffer_view(final(self).event_buffer@) == buffer_after(
                    buffer_view(old(self).event_buffer@),
                    #[trigger] window_event(*window_state, frame_id@, id),
                    old(self).max_buffer_size as int,
                ),
            anonymous_all(buffer_view(final(self).event_buffer@)) == buffer_after(
                anonymous_all(buffer_view(old(self).event_buffer@)),
                window_event(*window_state, frame_id@, Seq::empty()),
                old(self).max_buffer_size as int,
            ),
            final(self).same_but_buffer(old(self)),
    {
        let event = make_window_event(window_state, frame_id, fresh_id());
        let ghost id = event@.id;
        self.add_event(event);
        assert(buffer_view(self.event_buffer@) == buffer_after(
            buffer_view(old(self).event_buffer@),
            window_event(*window_state, frame_id@, id),
            old(self).max_buffer_size as int,
        ));
        proof {
            lemma_anonymous_buffer_after(
                buffer_view(old(self).event_buffer@),
                window_event(*window_state, frame_id@, id),
                old(self).max_buffer_size as int,
            );
        }
    }

    /// Takes a change of tab into the buffer, under a fresh identifier.
    pub fn add_tab_change_event(&mut self, tab_state: &TabState, frame_id: &str)
        ensures
            exists|id: Seq<char>|
                buffer_view(final(self).event_buffer@) == buffer_after(
                    buffer_view(old(self).event_buffer@),
                    #[trigger] tab_event(*tab_state, frame_id@, id),
                    old(self).max_buffer_size as int,
                ),
            anonymous_all(buffer_view(final(self).event_buffer@)) == buffer_after(
                anonymous_all(buffer_view(old(self).event_buffer@)),
                tab_event(*tab_state, frame_id@, Seq::empty()),
                old(self).max_buffer_size as int,
            ),
            final(self).same_but_buffer(old(self)),
    {
        let event = make_tab_event(tab_state, frame_id, fresh_id());
        let ghost id = event@.id;
        self.add_event(event);
        assert(buffer_view(self.event_buffer@) == buffer_after(
            buffer_view(old(self).event_buffer@),
            tab_event(*tab_state, frame_id@, id),
            old(self).max_buffer_size as int,
        ));
        proof {
            lemma_anonymous_buffer_after(
                buffer_view(old(self).event_buffer@),
                tab_event(*tab_state, frame_id@, id),
                old(self).max_buffer_size as int,
            );
        }
    }

    /// Takes a change of focus into the buffer, under a fresh identifier.
    pub fn add_focus_change_event(&mut self, focus_event_in: &FocusEvent, frame_id: &str)
        ensures
            exists|id: Seq<char>|
                buffer_view(final(self).event_buffer@) == buffer_after(
                    buffer_view(old(self).event_buffer@),
                    #[trigger] focus_event(*focus_event_in, frame_id@, id),
                    old(self).max_buffer_size as int,
                ),
            anonymous_all(buffer_view(final(self).event_buffer@)) == buffer_after(
                anonymous_all(buffer_view(old(self).event_buffer@)),
                focus_event(*focus_event_in, frame_id@, Seq::empty()),
                old(self).max_buffer_size as int,
            ),
            final(self).same_but_buffer(old(self)),
    {
        let event = make_focus_event(focus_event_in, frame_id, fresh_id());
        let ghost id = event@.id;
        self.add_event(event);
        assert(buffer_view(self.event_buffer@) == buffer_after(
            buffer_view(old(self).event_buffer@),
            focus_event(*focus_event_in, frame_id@, id),
            old(self).max_buffer_size as int,
        ));
        proof {
            lemma_anonymous_buffer_after(
                buffer_view(old(self).event_buffer@),
                focus_event(*focus_event_in, frame_id@, id),
                old(self).max_buffer_size as int,
            );
        }
    }

    /// Takes a detected event into the buffer, under its own identifier.
    pub fn add_detected_event(&mut self, detected_event: &DetectedEvent)
        ensures
            buffer_view(final(self).event_buffer@) == buffer_after(
                buffer_view(old(self).event_buffer@),
                screen_event(detected_event@),
                old(self).max_buffer_size as int,
            ),
            final(self).same_but_buffer(old(self)),
    {
        self.add_event(make_screen_event(detected_event));
    }

    /// Counts one correlation in the pattern of its kind.
    pub fn learn(&mut self, result: &CorrelationResult)
        ensures
            pattern_views(final(self).correlation_patterns@) == learn_one(
                pattern_views(old(self).correlation_patterns@),
                result@,
            ),
            final(self).config == old(self).config,
            final(self).event_buffer == old(self).event_buffer,
            final(self).max_buffer_size == old(self).max_buffer_size,
    {
        let ghost before = pattern_views(self.correlation_patterns@);
        let name = result.correlation_type.name();
        let i = self.pattern_index(name);
        let known: bool = i < self.correlation_patterns.len();
        let mut pattern = if known {
            self.correlation_patterns.remove(i)
        } else {
            CorrelationPattern {
                pattern_id: String::from_str(name),
                event_sequence: Vec::new(),
                typical_timing: Vec::new(),
                spatial_relationship: None,
                confidence: 0,
                occurrence_count: 0,
            }
        };
        let ghost base = pattern@;
        assert(i < before.len() ==> base == before[i as int]);
        assert(i >= before.len() ==> base =~= new_pattern(name@)) by {
            if i >= before.len() {
                assert(base.event_sequence =~= new_pattern(name@).event_sequence);
                assert(base.typical_timing =~= new_pattern(name@).typical_timing);
            }
        }
        let count: u32 = if pattern.occurrence_count == u32::MAX {
            u32::MAX
        } else {
            pattern.occurrence_count + 1
        };
        proof {
            let m = pattern.confidence as int;
            let c = count as int;
            let v = result.confidence as int;
            assert(0 <= m * (c - 1) + v <= 0xffff_ffff * c) by (nonlinear_arith)
                requires
                    0 <= m <= 0xffff_ffff,
                    0 <= v <= 0xffff_ffff,
                    c >= 1,
            ;
            assert((m * (c - 1) + v) / c <= 0xffff_ffff) by (nonlinear_arith)
                requires
                    0 <= m * (c - 1) + v <= 0xffff_ffff * c,
                    c >= 1,
            ;
            assert(0 <= m * (c - 1) <= 0xffff_ffff * 0xffff_ffff) by (nonlinear_arith)
                requires
                    0 <= m <= 0xffff_ffff,
                    1 <= c <= 0xffff_ffff,
            ;
        }
        let mean: u64 = ((pattern.confidence as u64) * ((count - 1) as u64) + result.confidence as u64)
            / (count as u64);
        pattern.confidence = mean as u32;
        pattern.occurrence_count = count;
        pattern.typical_timing.push(result.evidence.temporal_proximity);
        if pattern.typical_timing.len() > MAX_TIMINGS {
            let _ = pattern.typical_timing.remove(0);
            assert(pattern.typical_timing@ =~= timing_after(
                base.typical_timing,
                result.evidence.temporal_proximity,
            ));
        }
        assert(pattern@ == pattern_after(base, result@));
        if known {
            self.correlation_patterns.insert(i, pattern);
            assert(pattern_views(self.correlation_patterns@) =~= before.update(
                i as int,
                pattern_after(base, result@),
            ));
        } else {
            self.correlation_patterns.push(pattern);
            assert(pattern_views(self.correlation_patterns@) =~= before.push(
                pattern_after(base, result@),
            ));
        }
    }

    /// Counts the correlations in the patterns of their kinds, in order.
    pub fn update_correlation_patterns(&mut self, correlations_found: &Vec<CorrelationResult>)
        ensures
            pattern_views(final(self).correlation_patterns@) == learn_all(
                pattern_views(old(self).correlation_patterns@),
                result_views(correlations_found@),
            ),
            final(self).config == old(self).config,
            final(self).event_buffer == old(self).event_buffer,
            final(self).max_buffer_size == old(self).max_buffer_size,
    {
        let ghost all = result_views(correlations_found@);
        let mut i: usize = 0;
        while i < correlations_found.len()
            invariant
                i <= correlations_found.len(),
                all == result_views(correlations_found@),
                pattern_views(self.correlation_patterns@) == learn_all(
                    pattern_views(old(self).correlation_patterns@),
                    all.take(i as int),
                ),
                self.config == old(self).config,
                self.event_buffer == old(self).event_buffer,
                self.max_buffer_size == old(self).max_buffer_size,
            decreases correlations_found.len() - i,
        {
            assert(all.take(i + 1).drop_last() =~= all.take(i as int));
            self.learn(&correlations_found[i]);
            i += 1;
        }
        assert(all.take(correlations_found.len() as int) =~= all);
    }

    /// Drops the events that are too old at `current_timestamp`, finds the
    /// correlations among the others and counts them in the patterns.
    pub fn analyze_correlations(&mut self, current_timestamp: i64) -> (r: Result<Vec<CorrelationResult>>)
        ensures
            r is Ok,
            buffer_view(final(self).event_buffer@) == fresh_events(
                buffer_view(old(self).event_buffer@),
                current_timestamp,
                old(self).config.max_correlation_window_ms,
            ),
            anonymous_all(buffer_view(final(self).event_buffer@)) == fresh_events(
                anonymous_all(buffer_view(old(self).event_buffer@)),
                current_timestamp,
                old(self).config.max_correlation_window_ms,
            ),
            sans_ids(r->Ok_0@) == correlations(
                old(self).config,
                buffer_view(final(self).event_buffer@),
                current_timestamp,
            ),
            pattern_views(final(self).correlation_patterns@) == learn_all(
                pattern_views(old(self).correlation_patterns@),
                result_views(r->Ok_0@),
            ),
            final(self).config == old(self).config,
            final(self).max_buffer_size == old(self).max_buffer_size,
    {
        proof {
            lemma_anonymous_fresh_events(
                buffer_view(self.event_buffer@),
                current_timestamp,
                self.config.max_correlation_window_ms,
            );
        }
        self.clean_old_events(current_timestamp);
        let mut found: Vec<CorrelationResult> = Vec::new();
        assert(sans_ids(found@) =~= Seq::<CorrelationResultView>::empty());
        if self.event_buffer.len() < 2 {
            assert(result_views(found@) =~= Seq::<CorrelationResultView>::empty());
            return Ok(found);
        }
        if self.config.enable_temporal_correlation {
            let mut more = analyze_temporal_correlations(
                &self.config,
                &self.event_buffer,
                current_timestamp,
            );
            let ghost added = sans_ids(more@);
            found.append(&mut more);
            assert(sans_ids(found@) =~= added);
        }
        let ghost first = sans_ids(found@);
        if self.config.enable_spatial_correlation {
            let mut more = analyze_spatial_correlations(
                &self.config,
                &self.event_buffer,
                current_timestamp,
            );
            let ghost added = sans_ids(more@);
            found.append(&mut more);
            assert(sans_ids(found@) =~= first + added);
        } else {
            assert(first + Seq::<CorrelationResultView>::empty() =~= first);
        }
        let ghost second = sans_ids(found@);
        if self.config.enable_causal_correlation {
            let mut more = analyze_causal_correlations(
                &self.config,
                &self.event_buffer,
                current_timestamp,
            );
            let ghost added = sans_ids(more@);
            found.append(&mut more);
            assert(sans_ids(found@) =~= second + added);
        } else {
            assert(second + Seq::<CorrelationResultView>::empty() =~= second);
        }
        self.update_correlation_patterns(&found);
        Ok(found)
    }
}

impl EventCorrelator {
    /// Takes the changes of focus into the buffer, in order, each under a
    /// fresh identifier.
    pub fn add_focus_history(&mut self, history: &Vec<FocusEvent>, frame_id: &str)
        ensures
            anonymous_all(buffer_view(final(self).event_buffer@)) == buffer_after_all(
                anonymous_all(buffer_view(old(self).event_buffer@)),
                focus_entries(history@, frame_id@),
                old(self).max_buffer_size as int,
            ),
            final(self).same_but_buffer(old(self)),
    {
        let ghost before = anonymous_all(buffer_view(self.event_buffer@));
        let ghost all = focus_entries(history@, frame_id@);
        let mut i: usize = 0;
        while i < history.len()
            invariant
                i <= history.len(),
                self.same_but_buffer(old(self)),
                all == focus_entries(history@, frame_id@),
                anonymous_all(buffer_view(self.event_buffer@)) == buffer_after_all(
                    before,
                    all.take(i as int),
                    old(self).max_buffer_size as int,
                ),
            decreases history.len() - i,
        {
            assert(all.take(i + 1).drop_last() =~= all.take(i as int));
            self.add_focus_change_event(&history[i], frame_id);
            i += 1;
        }
        assert(all.take(history.len() as int) =~= all);
    }

    /// Takes the clicks into the buffer, in order, each under a fresh identifier.
    pub fn add_click_history(&mut self, clicks: &Vec<ClickEvent>, frame_id: &str)
        ensures
            anonymous_all(buffer_view(final(self).event_buffer@)) == buffer_after_all(
                anonymous_all(buffer_view(old(self).event_buffer@)),
                click_entries(clicks@, frame_id@),
                old(self).max_buffer_size as int,
            ),
            final(self).same_but_buffer(old(self)),
    {
        let ghost before = anonymous_all(buffer_view(self.event_buffer@));
        let ghost all = click_entries(clicks@, frame_id@);
        let mut i: usize = 0;
        while i < clicks.len()
            invariant
                i <= clicks.len(),
                self.same_but_buffer(old(self)),
                all == click_entries(clicks@, frame_id@),
                anonymous_all(buffer_view(self.event_buffer@)) == buffer_after_all(
                    before,
                    all.take(i as int),
                    old(self).max_buffer_size as int,
                ),
            decreases clicks.len() - i,
        {
            assert(all.take(i + 1).drop_last() =~= all.take(i as int));
            self.add_click_event(&clicks[i], frame_id);
            i += 1;
        }
        assert(all.take(clicks.len() as int) =~= all);
    }

    /// Takes the detected events into the buffer, in order, each under its
    /// own identifier.
    pub fn add_detected_events(&mut self, events: &Vec<DetectedEvent>)
        ensures
            buffer_view(final(self).event_buffer@) == buffer_after_all(
                buffer_view(old(self).event_buffer@),
                screen_entries(crate::events::event_views(events@)),
                old(self).max_buffer_size as int,
            ),
            anonymous_all(buffer_view(final(self).event_buffer@)) == buffer_after_all(
                anonymous_all(buffer_view(old(self).event_buffer@)),
                screen_entries(crate::events::sans_ids(events@)),
                old(self).max_buffer_size as int,
            ),
            final(self).same_but_buffer(old(self)),
    {
        proof {
            let entries = screen_entries(crate::events::event_views(events@));
            lemma_anonymous_buffer_after_all(
                buffer_view(self.event_buffer@),
                entries,
                self.max_buffer_size as int,
            );
            assert(anonymous_all(entries) =~= screen_entries(crate::events::sans_ids(events@)));
        }
        let ghost before = buffer_view(self.event_buffer@);
        let ghost all = screen_entries(crate::events::event_views(events@));
        let mut i: usize = 0;
        while i < events.len()
            invariant
                i <= events.len(),
                self.same_but_buffer(old(self)),
                all == screen_entries(crate::events::event_views(events@)),
                buffer_view(self.event_buffer@) == buffer_after_all(
                    before,
                    all.take(i as int),
                    old(self).max_buffer_size as int,
                ),
            decreases events.len() - i,
        {
            assert(all.take(i + 1).drop_last() =~= all.take(i as int));
            self.add_detected_event(&events[i]);
            i += 1;
        }
        assert(all.take(events.len() as int) =~= all);
    }

    /// Takes the state of the navigation into the buffer: the window and
    /// the tab in front where they are known, then the changes of focus,
    /// each under a fresh identifier.
    pub fn add_navigation_state(
        &mut self,
        window: &Option<WindowState>,
        tab: &Option<TabState>,
        focus_history: &Vec<FocusEvent>,
        frame_id: &str,
    )
        ensures
            anonymous_all(buffer_view(final(self).event_buffer@)) == with_navigation(
                anonymous_all(buffer_view(old(self).event_buffer@)),
                *window,
                *tab,
                focus_history@,
                frame_id@,
                old(self).max_buffer_size as int,
            ),
            final(self).same_but_buffer(old(self)),
    {
        match window {
            Some(w) => {
                self.add_window_change_event(w, frame_id);
            },
            None => {},
        }
        match tab {
            Some(t) => {
                self.add_tab_change_event(t, frame_id);
            },
            None => {},
        }
        self.add_focus_history(focus_history, frame_id);
    }

    /// Takes the state of the cursor into the buffer: its position where
    /// it is known, then the clicks, each under a fresh identifier.
    pub fn add_cursor_state(&mut self, position: &Option<CursorPosition>, clicks: &Vec<ClickEvent>, frame_id: &str)
        ensures
            anonymous_all(buffer_view(final(self).event_buffer@)) == with_cursor(
                anonymous_all(buffer_view(old(self).event_buffer@)),
                *position,
                clicks@,
                frame_id@,
                old(self).max_buffer_size as int,
            ),
            final(self).same_but_buffer(old(self)),
    {
        match position {
            Some(p) => {
                self.add_cursor_event(p, frame_id);
            },
            None => {},
        }
        self.add_click_history(clicks, frame_id);
    }
}

} // verus!
