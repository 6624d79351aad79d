use keyframe_indexer::clock::milliseconds_between;
use keyframe_indexer::correlator::{
    causal_rule, evaluate_causal_correlation, evaluate_spatial_correlation,
    evaluate_temporal_correlation, extract_spatial_info_from_metadata, measure_distance,
    spatial_rule, temporal_rule, CorrelationConfig, CorrelationEvent,
    CorrelationEventType, CorrelationType, EventCorrelator, SpatialInfo,
};
use keyframe_indexer::cursor::{ClickEvent, ClickType, CursorPosition, KeyModifier, MouseButton};
use keyframe_indexer::events::{DetectedEvent, EventType};
use keyframe_indexer::keyvalue::Metadata;
use keyframe_indexer::navigation::{FocusEvent, TabState, WindowState};

const MS: i64 = 1_000_000;

fn event(id: &str, timestamp: i64, kind: CorrelationEventType, place: Option<(i32, i32)>, confidence: u32) -> CorrelationEvent {
    CorrelationEvent {
        id: id.to_string(),
        timestamp,
        event_type: kind,
        spatial_info: place.map(|(x, y)| SpatialInfo { x, y, width: None, height: None, screen_id: None }),
        metadata: Metadata::new(),
        confidence,
        frame_id: "test_frame".to_string(),
    }
}

#[test]
fn test_event_correlator_creation() {
    let correlator = EventCorrelator::new();
    assert!(correlator.event_buffer.is_empty());
    assert!(correlator.correlation_patterns.is_empty());
    assert_eq!(correlator.max_buffer_size, 1000);
    assert_eq!(correlator.config.max_correlation_window_ms, 2000);
    assert_eq!(correlator.config.min_correlation_confidence, 600_000);
    assert_eq!(correlator.config.spatial_correlation_radius, 50);
}

#[test]
fn test_spatial_distance_calculation() {
    let spatial1 = SpatialInfo { x: 0, y: 0, width: None, height: None, screen_id: None };
    let spatial2 = SpatialInfo { x: 3, y: 4, width: None, height: None, screen_id: None };
    let (distance, _) = measure_distance(&spatial1, &spatial2, 50);
    assert_eq!(distance, 5000); // 3-4-5 triangle, in thousandths of a pixel
}

#[test]
fn distances_are_rounded_down_to_thousandths() {
    let origin = SpatialInfo { x: 0, y: 0, width: None, height: None, screen_id: None };
    let diagonal = SpatialInfo { x: 1, y: 1, width: None, height: None, screen_id: None };
    assert_eq!(measure_distance(&origin, &diagonal, 1), (1414, false));
    assert_eq!(measure_distance(&origin, &diagonal, 2), (1414, true));
    assert_eq!(measure_distance(&origin, &origin, 0), (0, true));
    let far = SpatialInfo { x: i32::MAX, y: i32::MAX, width: None, height: None, screen_id: None };
    let near = SpatialInfo { x: i32::MIN, y: i32::MIN, width: None, height: None, screen_id: None };
    let (d, within) = measure_distance(&near, &far, u32::MAX);
    assert!(!within);
    assert_eq!(d, 6_074_000_998_537);
}

#[test]
fn test_event_buffer_management() {
    let mut correlator = EventCorrelator::new();
    correlator.max_buffer_size = 3;
    for i in 0..5 {
        correlator.add_event(event(
            &format!("event_{}", i),
            1_000 + i,
            CorrelationEventType::CursorMovement,
            None,
            800_000,
        ));
    }
    assert_eq!(correlator.event_buffer.len(), 3);
    assert_eq!(correlator.event_buffer[0].id, "event_2");
    assert_eq!(correlator.event_buffer[2].id, "event_4");
}

#[test]
fn test_correlation_event_creation() {
    let cursor_pos = CursorPosition { x: 100, y: 200, timestamp: 77, screen_id: Some(1) };
    let mut correlator = EventCorrelator::new();
    correlator.add_cursor_event(&cursor_pos, "test_frame");

    assert_eq!(correlator.event_buffer.len(), 1);
    let event = &correlator.event_buffer[0];
    assert_eq!(event.event_type, CorrelationEventType::CursorMovement);
    assert!(event.spatial_info.is_some());
    let spatial = event.spatial_info.as_ref().unwrap();
    assert_eq!(spatial.x, 100);
    assert_eq!(spatial.y, 200);
    assert_eq!(spatial.screen_id, Some(1));
    assert_eq!(event.confidence, 900_000);
    assert_eq!(event.timestamp, 77);
    assert_eq!(event.frame_id, "test_frame");
    assert!(!event.id.is_empty());
}

#[test]
fn test_old_event_cleanup() {
    let mut correlator = EventCorrelator::new();
    correlator.config.max_correlation_window_ms = 1000;
    let now = 1_700_000_000_000 * MS;
    correlator.add_event(event("old_event", now - 2000 * MS, CorrelationEventType::CursorMovement, None, 800_000));
    correlator.add_event(event("recent_event", now, CorrelationEventType::CursorClick, None, 800_000));
    assert_eq!(correlator.event_buffer.len(), 2);
    correlator.clean_old_events(now);
    assert_eq!(correlator.event_buffer.len(), 1);
    assert_eq!(correlator.event_buffer[0].id, "recent_event");
}

#[test]
fn cleanup_keeps_the_events_within_the_window() {
    let mut correlator = EventCorrelator::new();
    let now = 10_000 * MS;
    // Exactly as old as the window is not too old.
    correlator.add_event(event("a", now - 2001 * MS, CorrelationEventType::CursorClick, None, 1));
    correlator.add_event(event("b", now - 2000 * MS, CorrelationEventType::CursorClick, None, 1));
    correlator.add_event(event("c", now, CorrelationEventType::CursorClick, None, 1));
    correlator.clean_old_events(now);
    let ids: Vec<_> = correlator.event_buffer.iter().map(|e| e.id.as_str()).collect();
    assert_eq!(ids, vec!["b", "c"]);
    correlator.clean_old_events(i64::MAX);
    assert!(correlator.event_buffer.is_empty());
    correlator.clean_old_events(i64::MIN);
    assert!(correlator.event_buffer.is_empty());
}

#[test]
fn events_that_are_too_old_leave_wherever_they_are() {
    let mut correlator = EventCorrelator::new();
    // The buffer is filled by hand, out of the order of time.
    correlator.event_buffer.push(event("late", 10_000 * MS, CorrelationEventType::CursorClick, None, 1));
    correlator.event_buffer.push(event("early", 0, CorrelationEventType::CursorClick, None, 1));
    correlator.event_buffer.push(event("edge", 8_000 * MS, CorrelationEventType::CursorClick, None, 1));
    correlator.clean_old_events(10_000 * MS);
    let ids: Vec<_> = correlator.event_buffer.iter().map(|e| e.id.as_str()).collect();
    assert_eq!(ids, vec!["late", "edge"]);
}

#[test]
fn events_are_kept_in_the_order_of_their_times() {
    let mut correlator = EventCorrelator::new();
    for (id, t) in [("c", 30), ("a", 10), ("d", 30), ("b", 20), ("e", 5)] {
        correlator.add_event(event(id, t, CorrelationEventType::FocusChange, None, 1));
    }
    let ids: Vec<_> = correlator.get_recent_events().iter().map(|e| e.id.as_str()).collect();
    // Events of the same time keep the order in which they came.
    assert_eq!(ids, vec!["e", "a", "b", "c", "d"]);
    correlator.max_buffer_size = 0;
    correlator.add_event(event("f", 1, CorrelationEventType::FocusChange, None, 1));
    assert!(correlator.event_buffer.is_empty());
}

#[test]
fn rule_tables() {
    assert_eq!(temporal_rule(CorrelationEventType::CursorClick, CorrelationEventType::ScreenChange), Some(CorrelationType::CursorToScreenChange));
    assert_eq!(temporal_rule(CorrelationEventType::CursorClick, CorrelationEventType::WindowChange), Some(CorrelationType::CursorToScreenChange));
    assert_eq!(temporal_rule(CorrelationEventType::CursorClick, CorrelationEventType::TabChange), Some(CorrelationType::CursorToScreenChange));
    assert_eq!(temporal_rule(CorrelationEventType::WindowChange, CorrelationEventType::CursorMovement), Some(CorrelationType::ScreenToCursorResponse));
    assert_eq!(temporal_rule(CorrelationEventType::ErrorDisplay, CorrelationEventType::CursorClick), Some(CorrelationType::ErrorRecovery));
    assert_eq!(temporal_rule(CorrelationEventType::ScreenChange, CorrelationEventType::CursorClick), None);
    assert_eq!(temporal_rule(CorrelationEventType::CursorClick, CorrelationEventType::FieldChange), None);
    assert_eq!(spatial_rule(CorrelationEventType::CursorClick, CorrelationEventType::FieldChange), Some(CorrelationType::CursorToScreenChange));
    assert_eq!(spatial_rule(CorrelationEventType::CursorMovement, CorrelationEventType::FieldChange), Some(CorrelationType::CursorToScreenChange));
    assert_eq!(spatial_rule(CorrelationEventType::FieldChange, CorrelationEventType::CursorClick), None);
    assert_eq!(causal_rule(CorrelationEventType::CursorClick, CorrelationEventType::WindowChange), Some((CorrelationType::CursorToScreenChange, 900_000)));
    assert_eq!(causal_rule(CorrelationEventType::CursorClick, CorrelationEventType::TabChange), Some((CorrelationType::CursorToScreenChange, 850_000)));
    assert_eq!(causal_rule(CorrelationEventType::CursorClick, CorrelationEventType::FieldChange), Some((CorrelationType::CursorToScreenChange, 800_000)));
    assert_eq!(causal_rule(CorrelationEventType::ErrorDisplay, CorrelationEventType::CursorMovement), Some((CorrelationType::ErrorRecovery, 700_000)));
    assert_eq!(causal_rule(CorrelationEventType::ModalAppearance, CorrelationEventType::CursorClick), Some((CorrelationType::ErrorRecovery, 750_000)));
    assert_eq!(causal_rule(CorrelationEventType::CursorMovement, CorrelationEventType::CursorClick), None);
    assert_eq!(CorrelationType::NavigationSequence.name(), "NavigationSequence");
    assert_eq!(CorrelationType::InteractionWorkflow.name(), "InteractionWorkflow");
}

#[test]
fn temporal_correlation_exact() {
    let cfg = CorrelationConfig::default();
    let click = event("click", 0, CorrelationEventType::CursorClick, None, 900_000);
    let change = event("change", 500 * MS, CorrelationEventType::ScreenChange, None, 700_000);
    let r = evaluate_temporal_correlation(&cfg, &click, &change, 42).unwrap();
    // 0.6 * (1 - 500/2000) + 0.4 * 0.8.
    assert_eq!(r.confidence, 770_000);
    assert_eq!(r.correlation_type, CorrelationType::CursorToScreenChange);
    assert_eq!(r.correlated_events, vec!["click".to_string(), "change".to_string()]);
    assert_eq!(r.evidence.temporal_proximity, 500);
    assert_eq!(r.evidence.spatial_proximity, None);
    assert_eq!(r.evidence.causal_strength, 700_000);
    assert_eq!(r.evidence.pattern_match, None);
    assert_eq!(r.timestamp, 42);
    // The second event must come after the first, and within the window.
    assert!(evaluate_temporal_correlation(&cfg, &change, &click, 42).is_none());
    let same_time = event("change", 0, CorrelationEventType::ScreenChange, None, 700_000);
    assert!(evaluate_temporal_correlation(&cfg, &click, &same_time, 42).is_none());
    let at_the_end = event("change", 2000 * MS, CorrelationEventType::ScreenChange, None, 1_000_000);
    // 0.6 * 0 + 0.4 * 0.95 is under the least confidence.
    assert!(evaluate_temporal_correlation(&cfg, &click, &at_the_end, 42).is_none());
    let lenient = CorrelationConfig { min_correlation_confidence: 380_000, ..cfg };
    assert_eq!(evaluate_temporal_correlation(&lenient, &click, &at_the_end, 42).unwrap().confidence, 380_000);
    let too_late = event("change", 2001 * MS, CorrelationEventType::ScreenChange, None, 1_000_000);
    assert!(evaluate_temporal_correlation(&lenient, &click, &too_late, 42).is_none());
    let unrelated = event("x", 500 * MS, CorrelationEventType::FocusChange, None, 1_000_000);
    assert!(evaluate_temporal_correlation(&lenient, &click, &unrelated, 42).is_none());
}

#[test]
fn spatial_correlation_exact() {
    let cfg = CorrelationConfig::default();
    let click = event("click", 0, CorrelationEventType::CursorClick, Some((100, 100)), 900_000);
    let field = event("field", 300 * MS, CorrelationEventType::FieldChange, Some((103, 104)), 900_000);
    let r = evaluate_spatial_correlation(&cfg, &click, &field, 1).unwrap();
    // 0.7 * (1 - 5/50) + 0.3 * 0.9.
    assert_eq!(r.confidence, 900_000);
    assert_eq!(r.evidence.spatial_proximity, Some(5000));
    assert_eq!(r.evidence.temporal_proximity, 300);
    assert_eq!(r.evidence.causal_strength, 800_000);
    // The time does not matter, not even its direction.
    let earlier = event("field", -300 * MS, CorrelationEventType::FieldChange, Some((103, 104)), 900_000);
    assert_eq!(evaluate_spatial_correlation(&cfg, &click, &earlier, 1).unwrap().evidence.temporal_proximity, 300);
    // At the radius exactly: 0.7 * 0 + 0.3 * 0.9 is under the least confidence.
    let at_radius = event("field", 0, CorrelationEventType::FieldChange, Some((130, 140)), 900_000);
    assert!(evaluate_spatial_correlation(&cfg, &click, &at_radius, 1).is_none());
    let lenient = CorrelationConfig { min_correlation_confidence: 0, ..cfg };
    assert_eq!(evaluate_spatial_correlation(&lenient, &click, &at_radius, 1).unwrap().confidence, 270_000);
    let beyond = event("field", 0, CorrelationEventType::FieldChange, Some((130, 141)), 900_000);
    assert!(evaluate_spatial_correlation(&lenient, &click, &beyond, 1).is_none());
    let nowhere = event("field", 0, CorrelationEventType::FieldChange, None, 900_000);
    assert!(evaluate_spatial_correlation(&lenient, &click, &nowhere, 1).is_none());
    // With a radius of 0 only the same place counts, and the place gives nothing.
    let point = CorrelationConfig { spatial_correlation_radius: 0, min_correlation_confidence: 0, ..cfg };
    let same = event("field", 0, CorrelationEventType::FieldChange, Some((100, 100)), 900_000);
    assert_eq!(evaluate_spatial_correlation(&point, &click, &same, 1).unwrap().confidence, 270_000);
}

#[test]
fn causal_correlation_exact() {
    let cfg = CorrelationConfig::default();
    let click = event("click", 1000 * MS, CorrelationEventType::CursorClick, None, 1_000_000);
    let window = event("window", 1200 * MS, CorrelationEventType::WindowChange, None, 800_000);
    let r = evaluate_causal_correlation(&cfg, &click, &window, 9).unwrap();
    // 0.5 * 0.9 + 0.3 * (1 - 200/2000) + 0.2 * 0.9.
    assert_eq!(r.confidence, 900_000);
    assert_eq!(r.evidence.causal_strength, 900_000);
    assert_eq!(r.evidence.temporal_proximity, 200);
    assert_eq!(r.correlation_type, CorrelationType::CursorToScreenChange);
    let late = event("window", 3001 * MS, CorrelationEventType::WindowChange, None, 800_000);
    assert!(evaluate_causal_correlation(&cfg, &click, &late, 9).is_none());
    assert!(evaluate_causal_correlation(&cfg, &window, &click, 9).is_none());
}

#[test]
fn analysis_finds_each_kind_of_correlation_and_counts_it() {
    let mut correlator = EventCorrelator::new();
    let now = 100_000 * MS;
    correlator.add_event(event("stale", now - 5000 * MS, CorrelationEventType::CursorClick, None, 900_000));
    correlator.add_event(event("click", now - 1000 * MS, CorrelationEventType::CursorClick, Some((10, 10)), 900_000));
    correlator.add_event(event("window", now - 900 * MS, CorrelationEventType::WindowChange, None, 900_000));
    correlator.add_event(event("field", now - 800 * MS, CorrelationEventType::FieldChange, Some((10, 12)), 900_000));
    let found = correlator.analyze_correlations(now).unwrap();
    assert_eq!(correlator.event_buffer.len(), 3);
    let shape: Vec<(Vec<String>, u32, Option<u64>, u32)> = found
        .iter()
        .map(|r| {
            (
                r.correlated_events.clone(),
                r.confidence,
                r.evidence.spatial_proximity,
                r.evidence.causal_strength,
            )
        })
        .collect();
    let pair = |a: &str, b: &str| vec![a.to_string(), b.to_string()];
    assert_eq!(
        shape,
        vec![
            // In time: click then window, 0.6 * 0.95 + 0.4 * 0.9.
            (pair("click", "window"), 930_000, None, 700_000),
            // In space: click and field, two pixels apart: 0.7 * 0.96 + 0.3 * 0.9.
            (pair("click", "field"), 942_000, Some(2000), 800_000),
            // Cause and effect between neighbours: 0.5 * 0.9 + 0.3 * 0.95 + 0.2 * 0.9.
            (pair("click", "window"), 915_000, None, 900_000),
        ]
    );
    assert!(found.iter().all(|r| r.correlation_type == CorrelationType::CursorToScreenChange));
    assert!(found.iter().all(|r| r.timestamp == now));
    let stats = correlator.get_correlation_statistics();
    assert_eq!(stats, vec![("CursorToScreenChange".to_string(), 3)]);
    let pattern = &correlator.correlation_patterns[0];
    // The mean, rounded down after each correlation.
    assert_eq!(pattern.confidence, 929_000);
    assert_eq!(pattern.typical_timing, vec![100, 200, 100]);
    // Each kind of rule can be switched off.
    let mut quiet = EventCorrelator::with_config(CorrelationConfig {
        enable_temporal_correlation: false,
        enable_spatial_correlation: false,
        enable_causal_correlation: false,
        ..CorrelationConfig::default()
    });
    quiet.add_event(event("click", now - 1000 * MS, CorrelationEventType::CursorClick, Some((10, 10)), 900_000));
    quiet.add_event(event("window", now - 900 * MS, CorrelationEventType::WindowChange, None, 900_000));
    assert!(quiet.analyze_correlations(now).unwrap().is_empty());
    assert!(quiet.get_correlation_statistics().is_empty());
    correlator.clear_data();
    assert!(correlator.event_buffer.is_empty());
    assert!(correlator.correlation_patterns.is_empty());
}

#[test]
fn a_single_event_correlates_with_nothing() {
    let mut correlator = EventCorrelator::new();
    correlator.add_event(event("click", 0, CorrelationEventType::CursorClick, None, 900_000));
    assert!(correlator.analyze_correlations(0).unwrap().is_empty());
    assert!(EventCorrelator::new().analyze_correlations(0).unwrap().is_empty());
}

#[test]
fn only_the_last_hundred_timings_are_kept() {
    let mut correlator = EventCorrelator::new();
    let click = event("click", 0, CorrelationEventType::CursorClick, None, 1_000_000);
    for i in 1..=105i64 {
        let change = event("w", i * MS, CorrelationEventType::WindowChange, None, 1_000_000);
        let r = evaluate_temporal_correlation(&correlator.config, &click, &change, 0).unwrap();
        correlator.learn(&r);
    }
    let pattern = &correlator.correlation_patterns[0];
    assert_eq!(pattern.occurrence_count, 105);
    assert_eq!(pattern.typical_timing.len(), 100);
    assert_eq!(pattern.typical_timing[0], 6);
    assert_eq!(pattern.typical_timing[99], 105);
    assert_eq!(pattern.pattern_id, "CursorToScreenChange");
}

#[test]
fn events_of_every_source_are_taken_into_the_buffer() {
    let mut correlator = EventCorrelator::new();
    let click = ClickEvent {
        position: CursorPosition { x: 5, y: -6, timestamp: 20, screen_id: None },
        button: MouseButton::Other(7),
        click_type: ClickType::Drag,
        click_count: 2,
        modifiers: vec![KeyModifier::Shift],
        confidence: 650_000,
    };
    correlator.add_click_event(&click, "f");
    let window = WindowState {
        app_name: "Safari".to_string(),
        window_title: "Start".to_string(),
        window_id: Some(1),
        bundle_id: Some("com.apple.Safari".to_string()),
        process_id: 456,
        timestamp: 10,
    };
    correlator.add_window_change_event(&window, "f");
    let tab = TabState {
        app_name: "Safari".to_string(),
        tab_title: "Start".to_string(),
        url: None,
        tab_index: Some(3),
        timestamp: 30,
    };
    correlator.add_tab_change_event(&tab, "f");
    let focus = FocusEvent {
        from_app: Some("Mail".to_string()),
        to_app: "Safari".to_string(),
        from_bundle_id: None,
        to_bundle_id: "com.apple.Safari".to_string(),
        timestamp: 40,
        confidence: 810_000,
    };
    correlator.add_focus_change_event(&focus, "f");
    let mut notes = Metadata::new();
    notes.add("roi_x", "12".to_string());
    notes.add("roi_y", "-3".to_string());
    notes.add("roi_width", "40".to_string());
    notes.add("roi_height", "tall".to_string());
    let detected = DetectedEvent {
        id: "detected-1".to_string(),
        timestamp: 50,
        event_type: EventType::DataEntry,
        target: "t".to_string(),
        value_from: None,
        value_to: None,
        confidence: 123,
        evidence_frames: vec!["frame-a".to_string(), "frame-b".to_string()],
        metadata: notes,
    };
    correlator.add_detected_event(&detected);
    let b = &correlator.event_buffer;
    let kinds: Vec<_> = b.iter().map(|e| e.event_type).collect();
    assert_eq!(
        kinds,
        vec![
            CorrelationEventType::WindowChange,
            CorrelationEventType::CursorClick,
            CorrelationEventType::TabChange,
            CorrelationEventType::FocusChange,
            CorrelationEventType::ScreenChange,
        ]
    );
    let get = |i: usize, k: &str| b[i].metadata.get(k).map(|s| s.clone());
    assert_eq!(get(0, "app_name").as_deref(), Some("Safari"));
    assert_eq!(get(0, "process_id").as_deref(), Some("456"));
    assert_eq!(get(0, "bundle_id").as_deref(), Some("com.apple.Safari"));
    assert_eq!(b[0].confidence, 900_000);
    assert_eq!(get(1, "button").as_deref(), Some("Other(7)"));
    assert_eq!(get(1, "click_type").as_deref(), Some("Drag"));
    assert_eq!(get(1, "click_count").as_deref(), Some("2"));
    assert_eq!(b[1].confidence, 650_000);
    assert_eq!(b[1].spatial_info.unwrap().y, -6);
    assert_eq!(get(2, "tab_index").as_deref(), Some("3"));
    assert_eq!(get(2, "url"), None);
    assert_eq!(b[2].confidence, 850_000);
    assert_eq!(get(3, "from_app").as_deref(), Some("Mail"));
    assert_eq!(get(3, "from_bundle_id"), None);
    assert_eq!(b[3].confidence, 810_000);
    assert_eq!(b[4].id, "detected-1");
    assert_eq!(b[4].frame_id, "frame-a");
    assert_eq!(
        b[4].spatial_info,
        Some(SpatialInfo { x: 12, y: -3, width: Some(40), height: None, screen_id: None })
    );
    let mut bare = detected.clone();
    bare.evidence_frames.clear();
    bare.metadata = Metadata::new();
    bare.event_type = EventType::ErrorDisplay;
    correlator.add_detected_event(&bare);
    let last = correlator.event_buffer.last().unwrap();
    assert_eq!(last.frame_id, "unknown");
    assert_eq!(last.spatial_info, None);
    assert_eq!(last.event_type, CorrelationEventType::ErrorDisplay);
}

#[test]
fn places_are_read_from_the_notes() {
    let mut m = Metadata::new();
    assert_eq!(extract_spatial_info_from_metadata(&m), None);
    m.add("roi_x", "1".to_string());
    m.add("roi_y", "2".to_string());
    assert_eq!(extract_spatial_info_from_metadata(&m), None);
    m.add("roi_width", "-5".to_string());
    m.add("roi_height", "6".to_string());
    assert_eq!(
        extract_spatial_info_from_metadata(&m),
        Some(SpatialInfo { x: 1, y: 2, width: None, height: Some(6), screen_id: None })
    );
    m.insert("roi_x", "1.5".to_string());
    assert_eq!(extract_spatial_info_from_metadata(&m), None);
}

#[test]
fn milliseconds_are_rounded_towards_zero() {
    assert_eq!(milliseconds_between(0, 1_999_999), 1);
    assert_eq!(milliseconds_between(1_999_999, 0), -1);
    assert_eq!(milliseconds_between(5, 5), 0);
    assert_eq!(milliseconds_between(i64::MIN, i64::MAX), 18_446_744_073_709);
    assert_eq!(milliseconds_between(i64::MAX, i64::MIN), -18_446_744_073_709);
}

#[test]
fn the_state_of_navigation_and_cursor_goes_into_the_buffer_by_time() {
    let mut correlator = EventCorrelator::new();
    let window = WindowState {
        app_name: "Safari".to_string(),
        window_title: "Start".to_string(),
        window_id: None,
        bundle_id: None,
        process_id: 1,
        timestamp: 30,
    };
    let focus = |timestamp: i64| FocusEvent {
        from_app: None,
        to_app: "Safari".to_string(),
        from_bundle_id: None,
        to_bundle_id: "com.apple.Safari".to_string(),
        timestamp,
        confidence: 700_000,
    };
    correlator.add_navigation_state(&Some(window), &None, &vec![focus(10), focus(40)], "f");
    let times: Vec<i64> = correlator.event_buffer.iter().map(|e| e.timestamp).collect();
    assert_eq!(times, vec![10, 30, 40]);
    let kinds: Vec<_> = correlator.event_buffer.iter().map(|e| e.event_type).collect();
    assert_eq!(
        kinds,
        vec![
            CorrelationEventType::FocusChange,
            CorrelationEventType::WindowChange,
            CorrelationEventType::FocusChange,
        ]
    );
    let click = ClickEvent {
        position: CursorPosition { x: 1, y: 2, timestamp: 20, screen_id: None },
        button: MouseButton::Left,
        click_type: ClickType::Press,
        click_count: 1,
        modifiers: Vec::new(),
        confidence: 500_000,
    };
    let position = CursorPosition { x: 3, y: 4, timestamp: 50, screen_id: Some(1) };
    correlator.add_cursor_state(&Some(position), &vec![click], "f");
    let kinds: Vec<_> = correlator.event_buffer.iter().map(|e| e.event_type).collect();
    assert_eq!(
        kinds,
        vec![
            CorrelationEventType::FocusChange,
            CorrelationEventType::CursorClick,
            CorrelationEventType::WindowChange,
            CorrelationEventType::FocusChange,
            CorrelationEventType::CursorMovement,
        ]
    );
    correlator.add_cursor_state(&None, &Vec::new(), "f");
    correlator.add_navigation_state(&None, &None, &Vec::new(), "f");
    assert_eq!(correlator.event_buffer.len(), 5);
    let ids: std::collections::HashSet<String> =
        correlator.event_buffer.iter().map(|e| e.id.clone()).collect();
    assert_eq!(ids.len(), 5);
}
