//! Navigation, cursor tracking and correlation for one frame after another.

use vstd::prelude::*;
use crate::correlator::{
    anonymous_all,
    buffer_after_all,
    buffer_view,
    correlations,
    fresh_events,
    learn_all,
    pattern_views,
    result_views,
    sans_ids as correlation_sans_ids,
    screen_entries,
    with_cursor,
    with_navigation,
    CorrelationConfig,
    CorrelationEventView,
    CorrelationResult,
    EventCorrelator,
};
use crate::cursor::{
    click_events,
    click_views,
    history_after,
    position_events,
    positions_after,
    reported_click,
    ClickEvent,
    CursorPosition,
    CursorTracker,
    CursorTrackingConfig,
};
use crate::delta_analyzer::clone_events;
use crate::error::Result;
use crate::events::{event_views, sans_ids, DetectedEvent, DetectedEventView};
use crate::navigation::{
    focus_events,
    focus_history_after,
    tab_events,
    window_events,
    FocusEvent,
    NavigationDetectionConfig,
    NavigationDetector,
    NavigationReadings,
    TabState,
    WindowState,
};
use crate::storage::EventParquetWriter;

verus! {

/// How the service works.
#[derive(Clone, Copy, Debug, PartialEq, Eq, Structural)]
pub struct NavigationIntegrationConfig {
    pub navigation_config: NavigationDetectionConfig,
    pub cursor_config: CursorTrackingConfig,
    pub correlation_config: CorrelationConfig,
    /// Whether every event and correlation is logged.
    pub enable_comprehensive_logging: bool,
    /// How many events wait before they are written.
    pub event_batch_size: usize,
    /// The time between two frames, in milliseconds.
    pub processing_interval_ms: u64,
}

impl NavigationIntegrationConfig {
    pub open spec fn spec_default() -> NavigationIntegrationConfig {
        NavigationIntegrationConfig {
            navigation_config: NavigationDetectionConfig::spec_default(),
            cursor_config: CursorTrackingConfig::spec_default(),
            correlation_config: CorrelationConfig::spec_default(),
            enable_comprehensive_logging: true,
            event_batch_size: 50,
            processing_interval_ms: 100,
        }
    }
}

impl Default for NavigationIntegrationConfig {
    fn default() -> (c: Self)
        ensures
            c == NavigationIntegrationConfig::spec_default(),
    {
        NavigationIntegrationConfig {
            navigation_config: NavigationDetectionConfig::default(),
            cursor_config: CursorTrackingConfig::default(),
            correlation_config: CorrelationConfig::default(),
            enable_comprehensive_logging: true,
            event_batch_size: 50,
            processing_interval_ms: 100,
        }
    }
}

/// What the service has counted.
#[derive(Clone, Copy, Debug, PartialEq, Eq, Structural)]
pub struct NavigationMetrics {
    pub total_events_detected: u64,
    pub navigation_events: u64,
    pub cursor_events: u64,
    pub correlation_events: u64,
    pub processing_time_ms: u64,
    pub error_count: u64,
    /// The time of the last frame, in nanoseconds since the epoch.
    pub last_update: Option<i64>,
}

/// `a + b`, or the greatest number where the sum is greater.
pub open spec fn capped_sum(a: u64, b: int) -> u64 {
    if a + b > u64::MAX {
        u64::MAX
    } else {
        (a + b) as u64
    }
}

fn add_capped(a: u64, b: usize) -> (r: u64)
    ensures
        r == capped_sum(a, b as int),
{
    let sum: u128 = a as u128 + b as u128;
    if sum > u64::MAX as u128 {
        u64::MAX
    } else {
        sum as u64
    }
}

/// The counts after a frame with the given numbers of events.
pub open spec fn metrics_after(
    m: NavigationMetrics,
    navigation: int,
    cursor: int,
    correlation: int,
    elapsed_ms: u64,
    timestamp: i64,
) -> NavigationMetrics {
    NavigationMetrics {
        total_events_detected: capped_sum(m.total_events_detected, navigation + cursor),
        navigation_events: capped_sum(m.navigation_events, navigation),
        cursor_events: capped_sum(m.cursor_events, cursor),
        correlation_events: capped_sum(m.correlation_events, correlation),
        processing_time_ms: capped_sum(m.processing_time_ms, elapsed_ms as int),
        error_count: m.error_count,
        last_update: Some(timestamp),
    }
}

/// What the probes say at one instant.
#[derive(Clone, Debug)]
pub struct ProbeReadings {
    pub navigation: NavigationReadings,
    /// The position of the cursor; none where the probe failed.
    pub cursor: Option<CursorPosition>,
}

/// What a frame gave.
#[derive(Clone, Debug)]
pub struct NavigationEventResult {
    pub detected_events: Vec<DetectedEvent>,
    pub correlations: Vec<CorrelationResult>,
    pub metrics: NavigationMetrics,
    /// In nanoseconds since the epoch.
    pub timestamp: i64,
}

/// The counts of the service, with the mean time for an event.
#[derive(Clone, Copy, Debug, PartialEq, Eq, Structural)]
pub struct NavigationCounts {
    pub total_events: u64,
    pub navigation_events: u64,
    pub cursor_events: u64,
    pub correlation_events: u64,
    pub error_count: u64,
    /// The processing time for each detected event, in milliseconds,
    /// rounded down; 0 where no event was detected.
    pub average_processing_time_ms: u64,
    pub last_update: Option<i64>,
}

/// Detects navigation and cursor events and correlates them.
#[derive(Debug)]
pub struct NavigationIntegrationService {
    pub navigation_detector: NavigationDetector,
    pub cursor_tracker: CursorTracker,
    pub event_correlator: EventCorrelator,
    /// Where the events wait to be written.
    pub event_writer: EventParquetWriter,
    pub config: NavigationIntegrationConfig,
    pub metrics: NavigationMetrics,
}

/// The buffer of the correlator, without identifiers, after a frame: the
/// window and the tab in front go in where they are known, then the
/// changes of focus, the position of the cursor where it is known, the
/// clicks and the events of the frame; at last the events that are too old
/// at `timestamp` are dropped.
pub open spec fn buffer_after_frame(
    window_ms: i64,
    capacity: int,
    before: Seq<CorrelationEventView>,
    window: Option<WindowState>,
    tab: Option<TabState>,
    focus_history: Seq<FocusEvent>,
    position: Option<CursorPosition>,
    clicks: Seq<ClickEvent>,
    events: Seq<DetectedEventView>,
    frame_id: Seq<char>,
    timestamp: i64,
) -> Seq<CorrelationEventView> {
    let with_state = with_cursor(
        with_navigation(before, window, tab, focus_history, frame_id, capacity),
        position,
        clicks,
        frame_id,
        capacity,
    );
    let with_events = buffer_after_all(with_state, screen_entries(events), capacity);
    fresh_events(with_events, timestamp, window_ms)
}

impl NavigationIntegrationService {
    /// A service with the default configuration.
    pub fn new(event_storage_dir: &str) -> (r: Result<NavigationIntegrationService>)
        ensures
            r is Ok,
            r->Ok_0.config == NavigationIntegrationConfig::spec_default(),
    {
        NavigationIntegrationService::with_config(
            event_storage_dir,
            NavigationIntegrationConfig::default(),
        )
    }

    /// A service with the given configuration that has seen no frame yet.
    pub fn with_config(event_storage_dir: &str, config: NavigationIntegrationConfig) -> (r: Result<
        NavigationIntegrationService,
    >)
        ensures
            r is Ok,
            r->Ok_0.config == config,
            r->Ok_0.navigation_detector.config == config.navigation_config,
            r->Ok_0.cursor_tracker.config == config.cursor_config,
            r->Ok_0.event_correlator.config == config.correlation_config,
            r->Ok_0.event_correlator.event_buffer@.len() == 0,
            r->Ok_0.event_writer.buffer.rows@.len() == 0,
            r->Ok_0.event_writer.buffer.batch_size == config.event_batch_size,
            r->Ok_0.event_writer.output_dir@ == event_storage_dir@,
            r->Ok_0.metrics == (NavigationMetrics {
                total_events_detected: 0,
                navigation_events: 0,
                cursor_events: 0,
                correlation_events: 0,
                processing_time_ms: 0,
                error_count: 0,
                last_update: None,
            }),
    {
        let mut event_writer = match EventParquetWriter::new(event_storage_dir) {
            Ok(w) => w,
            Err(e) => {
                return Err(e);
            },
        };
        event_writer.set_batch_size(config.event_batch_size);
        Ok(
            NavigationIntegrationService {
                navigation_detector: NavigationDetector::with_config(config.navigation_config),
                cursor_tracker: CursorTracker::with_config(config.cursor_config),
                event_correlator: EventCorrelator::with_config(config.correlation_config),
                event_writer,
                config,
                metrics: NavigationMetrics {
                    total_events_detected: 0,
                    navigation_events: 0,
                    cursor_events: 0,
                    correlation_events: 0,
                    processing_time_ms: 0,
                    error_count: 0,
                    last_update: None,
                },
            },
        )
    }

    /// Takes the readings of the probes for a frame: reports the changes
    /// of window, tab and focus and the events of the cursor, hands the state
    /// of windows, tabs, focus and cursor and the reported events to the
    /// correlator, has it find the correlations at the time of the frame,
    /// puts the events behind those that wait to be written, and counts.
    /// `elapsed_ms` is the time that the readings took.
    pub fn process_frame(&mut self, frame_id: &str, timestamp: i64, readings: ProbeReadings, elapsed_ms: u64) -> (r:
        Result<NavigationEventResult>)
        ensures
            r is Ok,
            r->Ok_0.timestamp == timestamp,
            r->Ok_0.metrics == final(self).metrics,
            final(self).config == old(self).config,
            final(self).event_writer.same_but_rows(&old(self).event_writer),
            final(self).navigation_detector.config == old(self).navigation_detector.config,
            final(self).cursor_tracker.config == old(self).cursor_tracker.config,
            final(self).event_correlator.config == old(self).event_correlator.config,
            final(self).cursor_tracker.position_history@ == positions_after(
                old(self).cursor_tracker.config,
                old(self).cursor_tracker.position_history@,
                readings.cursor,
                old(self).cursor_tracker.max_history_size as int,
            ),
            sans_ids(r->Ok_0.detected_events@) == window_events(
                old(self).navigation_detector.config,
                old(self).navigation_detector.previous_window_state,
                readings.navigation.window,
                frame_id@,
                timestamp,
            ) + tab_events(
                old(self).navigation_detector.config,
                old(self).navigation_detector.previous_tab_state,
                readings.navigation.tab,
                frame_id@,
                timestamp,
            ) + focus_events(
                old(self).navigation_detector.config,
                old(self).navigation_detector.focus_history@,
                readings.navigation.focus,
                frame_id@,
                timestamp,
            ) + position_events(
                old(self).cursor_tracker.config,
                old(self).cursor_tracker.last_position,
                readings.cursor,
                frame_id@,
                timestamp,
            ) + click_events(
                old(self).cursor_tracker.config,
                final(self).cursor_tracker.position_history@,
                frame_id@,
                timestamp,
            ),
            final(self).navigation_detector.previous_window_state == (if old(
                self,
            ).navigation_detector.config.enable_window_detection && readings.navigation.window is Some {
                readings.navigation.window
            } else {
                old(self).navigation_detector.previous_window_state
            }),
            final(self).navigation_detector.previous_tab_state == (if old(
                self,
            ).navigation_detector.config.enable_tab_detection && readings.navigation.tab is Some
                && readings.navigation.tab->Some_0 is Some {
                readings.navigation.tab->Some_0
            } else {
                old(self).navigation_detector.previous_tab_state
            }),
            final(self).navigation_detector.focus_history@ == (if focus_events(
                old(self).navigation_detector.config,
                old(self).navigation_detector.focus_history@,
                readings.navigation.focus,
                frame_id@,
                timestamp,
            ).len() > 0 {
                focus_history_after(
                    old(self).navigation_detector.focus_history@,
                    readings.navigation.focus->Some_0,
                    old(self).navigation_detector.max_history_size as int,
                )
            } else {
                old(self).navigation_detector.focus_history@
            }),
            final(self).cursor_tracker.last_position == (if old(
                self,
            ).cursor_tracker.config.enable_position_tracking && readings.cursor is Some {
                readings.cursor
            } else {
                old(self).cursor_tracker.last_position
            }),
            click_views(final(self).cursor_tracker.click_history@) == (match reported_click(
                old(self).cursor_tracker.config,
                final(self).cursor_tracker.position_history@,
            ) {
                Some(c) => history_after(
                    click_views(old(self).cursor_tracker.click_history@),
                    c,
                    old(self).cursor_tracker.max_history_size as int / 10,
                ),
                None => click_views(old(self).cursor_tracker.click_history@),
            }),
            anonymous_all(buffer_view(final(self).event_correlator.event_buffer@)) == buffer_after_frame(
                old(self).event_correlator.config.max_correlation_window_ms,
                old(self).event_correlator.max_buffer_size as int,
                anonymous_all(buffer_view(old(self).event_correlator.event_buffer@)),
                final(self).navigation_detector.previous_window_state,
                final(self).navigation_detector.previous_tab_state,
                final(self).navigation_detector.focus_history@,
                final(self).cursor_tracker.last_position,
                final(self).cursor_tracker.click_history@,
                sans_ids(r->Ok_0.detected_events@),
                frame_id@,
                timestamp,
            ),
            correlation_sans_ids(r->Ok_0.correlations@) == correlations(
                old(self).event_correlator.config,
                buffer_view(final(self).event_correlator.event_buffer@),
                timestamp,
            ),
            pattern_views(final(self).event_correlator.correlation_patterns@) == learn_all(
                pattern_views(old(self).event_correlator.correlation_patterns@),
                result_views(r->Ok_0.correlations@),
            ),
            final(self).event_correlator.max_buffer_size == old(self).event_correlator.max_buffer_size,
            event_views(final(self).event_writer.buffer.rows@) == event_views(
                old(self).event_writer.buffer.rows@,
            ) + event_views(r->Ok_0.detected_events@),
            final(self).metrics == metrics_after(
                old(self).metrics,
                (window_events(
                    old(self).navigation_detector.config,
                    old(self).navigation_detector.previous_window_state,
                    readings.navigation.window,
                    frame_id@,
                    timestamp,
                ) + tab_events(
                    old(self).navigation_detector.config,
                    old(self).navigation_detector.previous_tab_state,
                    readings.navigation.tab,
                    frame_id@,
                    timestamp,
                ) + focus_events(
                    old(self).navigation_detector.config,
                    old(self).navigation_detector.focus_history@,
                    readings.navigation.focus,
                    frame_id@,
                    timestamp,
                )).len() as int,
                (position_events(
                    old(self).cursor_tracker.config,
                    old(self).cursor_tracker.last_position,
                    readings.cursor,
                    frame_id@,
                    timestamp,
                ) + click_events(
                    old(self).cursor_tracker.config,
                    final(self).cursor_tracker.position_history@,
                    frame_id@,
                    timestamp,
                )).len() as int,
                r->Ok_0.correlations@.len() as int,
                elapsed_ms,
                timestamp,
            ),
    {
        let mut all_events: Vec<DetectedEvent> = Vec::new();
        let navigation_events = match self.navigation_detector.detect_navigation_events(
            frame_id,
            timestamp,
            readings.navigation,
        ) {
            Ok(events) => events,
            Err(e) => {
                return Err(e);
            },
        };
        let navigation_count: usize = navigation_events.len();
        self.metrics.navigation_events = add_capped(self.metrics.navigation_events, navigation_count);
        self.event_correlator.add_navigation_state(
            &self.navigation_detector.previous_window_state,
            &self.navigation_detector.previous_tab_state,
            &self.navigation_detector.focus_history,
            frame_id,
        );
        let ghost first = sans_ids(navigation_events@);
        assert(first.len() == navigation_count);
        let mut navigation_events = navigation_events;
        all_events.append(&mut navigation_events);
        assert(sans_ids(all_events@) =~= first);
        let cursor_events = match self.cursor_tracker.track_cursor_events(
            frame_id,
            timestamp,
            readings.cursor,
        ) {
            Ok(events) => events,
            Err(e) => {
                return Err(e);
            },
        };
        let cursor_count: usize = cursor_events.len();
        self.metrics.cursor_events = add_capped(self.metrics.cursor_events, cursor_count);
        self.event_correlator.add_cursor_state(
            &self.cursor_tracker.last_position,
            &self.cursor_tracker.click_history,
            frame_id,
        );
        let ghost second = sans_ids(cursor_events@);
        assert(second.len() == cursor_count);
        let mut cursor_events = cursor_events;
        all_events.append(&mut cursor_events);
        assert(sans_ids(all_events@) =~= first + second);
        self.event_correlator.add_detected_events(&all_events);
        let found = match self.event_correlator.analyze_correlations(timestamp) {
            Ok(found) => found,
            Err(e) => {
                return Err(e);
            },
        };
        self.metrics.correlation_events = add_capped(self.metrics.correlation_events, found.len());
        let ghost waiting = event_views(self.event_writer.buffer.rows@);
        let for_writer = clone_events(&all_events);
        let ghost written = event_views(for_writer@);
        let _ = self.event_writer.write_events(for_writer);
        assert(event_views(self.event_writer.buffer.rows@) =~= waiting + written);
        self.metrics.total_events_detected = add_capped(
            self.metrics.total_events_detected,
            all_events.len(),
        );
        self.metrics.processing_time_ms = if elapsed_ms > u64::MAX - self.metrics.processing_time_ms {
            u64::MAX
        } else {
            self.metrics.processing_time_ms + elapsed_ms
        };
        self.metrics.last_update = Some(timestamp);
        assert(self.metrics == metrics_after(
            old(self).metrics,
            navigation_count as int,
            cursor_count as int,
            found@.len() as int,
            elapsed_ms,
            timestamp,
        ));
        Ok(
            NavigationEventResult {
                detected_events: all_events,
                correlations: found,
                metrics: self.metrics,
                timestamp,
            },
        )
    }

    /// The counts of the service.
    pub fn get_navigation_counts(&self) -> (c: NavigationCounts)
        ensures
            c == (NavigationCounts {
                total_events: self.metrics.total_events_detected,
                navigation_events: self.metrics.navigation_events,
                cursor_events: self.metrics.cursor_events,
                correlation_events: self.metrics.correlation_events,
                error_count: self.metrics.error_count,
                average_processing_time_ms: if self.metrics.total_events_detected > 0 {
                    self.metrics.processing_time_ms / self.metrics.total_events_detected
                } else {
                    0
                },
                last_update: self.metrics.last_update,
            }),
    {
        NavigationCounts {
            total_events: self.metrics.total_events_detected,
            navigation_events: self.metrics.navigation_events,
            cursor_events: self.metrics.cursor_events,
            correlation_events: self.metrics.correlation_events,
            error_count: self.metrics.error_count,
            average_processing_time_ms: if self.metrics.total_events_detected > 0 {
                self.metrics.processing_time_ms / self.metrics.total_events_detected
            } else {
                0
            },
            last_update: self.metrics.last_update,
        }
    }

    /// Counts a failure of a probe or of the store.
    pub fn record_error(&mut self)
        ensures
            final(self).metrics == (NavigationMetrics {
                error_count: capped_sum(old(self).metrics.error_count, 1),
                ..old(self).metrics
            }),
            final(self).config == old(self).config,
            final(self).navigation_detector == old(self).navigation_detector,
            final(self).cursor_tracker == old(self).cursor_tracker,
            final(self).event_correlator == old(self).event_correlator,
            final(self).event_writer == old(self).event_writer,
    {
        self.metrics.error_count = add_capped(self.metrics.error_count, 1);
    }

    /// The positions of the last readings of the cursor, oldest first.
    pub fn get_recent_cursor_positions(&self) -> (r: Vec<CursorPosition>)
        ensures
            r@ == self.cursor_tracker.position_history@,
    {
        let mut r: Vec<CursorPosition> = Vec::new();
        let mut i: usize = 0;
        while i < self.cursor_tracker.position_history.len()
            invariant
                i <= self.cursor_tracker.position_history.len(),
                r@ == self.cursor_tracker.position_history@.take(i as int),
            decreases self.cursor_tracker.position_history.len() - i,
        {
            r.push(self.cursor_tracker.position_history[i]);
            assert(r@ =~= self.cursor_tracker.position_history@.take(i + 1));
            i += 1;
        }
        assert(self.cursor_tracker.position_history@.take(
            self.cursor_tracker.position_history.len() as int,
        ) =~= self.cursor_tracker.position_history@);
        r
    }

    /// The window of the last reading.
    pub fn get_current_window_state(&self) -> (r: Option<&WindowState>)
        ensures
            match r {
                Some(w) => self.navigation_detector.previous_window_state == Some(*w),
                None => self.navigation_detector.previous_window_state is None,
            },
    {
        self.navigation_detector.get_current_window()
    }

    /// The changes of focus that were reported, oldest first.
    pub fn get_focus_history(&self) -> (r: &Vec<FocusEvent>)
        ensures
            r == &self.navigation_detector.focus_history,
    {
        self.navigation_detector.get_focus_history()
    }

    /// Replaces the configuration of the service and of its parts.
    pub fn update_config(&mut self, config: NavigationIntegrationConfig)
        ensures
            final(self).config == config,
            final(self).navigation_detector.config == config.navigation_config,
            final(self).cursor_tracker.config == config.cursor_config,
            final(self).event_correlator.config == config.correlation_config,
            final(self).metrics == old(self).metrics,
            final(self).event_writer == old(self).event_writer,
    {
        self.navigation_detector.update_config(config.navigation_config);
        self.cursor_tracker.update_config(config.cursor_config);
        self.event_correlator.update_config(config.correlation_config);
        self.config = config;
    }
}

} // verus!
