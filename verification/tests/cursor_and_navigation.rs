use keyframe_indexer::correlator::CorrelationEventType;
use keyframe_indexer::cursor::{
    squared_distance, ClickEvent, ClickType, CursorPosition, CursorTracker, CursorTrackingConfig,
    KeyModifier, MouseButton, TrailType,
};
use keyframe_indexer::events::EventType;
use keyframe_indexer::navigation::{
    tabs_equal, windows_equal, FocusEvent, NavigationDetectionConfig, NavigationDetector,
    NavigationReadings, TabState, WindowState,
};
use keyframe_indexer::navigation_integration::{
    NavigationIntegrationConfig, NavigationIntegrationService, ProbeReadings,
};
use keyframe_indexer::probes::{
    focus_reading, parse_app_info, parse_cursor_response, parse_tab_response, parse_window_response,
};

const MS: i64 = 1_000_000;

fn at(x: i32, y: i32, timestamp: i64) -> CursorPosition {
    CursorPosition { x, y, timestamp, screen_id: None }
}

fn window(app: &str, title: &str, timestamp: i64) -> WindowState {
    WindowState {
        app_name: app.to_string(),
        window_title: title.to_string(),
        window_id: Some(123),
        bundle_id: Some(format!("com.example.{}", app)),
        process_id: 456,
        timestamp,
    }
}

fn focus(to: &str, timestamp: i64) -> FocusEvent {
    FocusEvent {
        from_app: None,
        to_app: to.to_string(),
        from_bundle_id: None,
        to_bundle_id: format!("com.{}", to.to_lowercase()),
        timestamp,
        confidence: 800_000,
    }
}

#[test]
fn test_cursor_tracker_creation() {
    let tracker = CursorTracker::new();
    assert!(tracker.position_history.is_empty());
    assert!(tracker.click_history.is_empty());
    assert!(tracker.last_position.is_none());
}

#[test]
fn test_distance_calculation() {
    let tracker = CursorTracker::new();
    let pos1 = at(0, 0, 0);
    let pos2 = at(3, 4, 0);
    let distance = tracker.calculate_distance(&pos1, &pos2);
    assert_eq!(distance, 5000); // 3-4-5 triangle, in thousandths of a pixel
    assert_eq!(squared_distance(&pos1, &pos2), 25);
    assert_eq!(tracker.calculate_distance(&at(0, 0, 0), &at(1, 0, 0)), 1000);
    assert_eq!(tracker.calculate_distance(&at(-1, -1, 0), &at(0, 0, 0)), 1414);
}

#[test]
fn test_click_event_creation() {
    let click = ClickEvent {
        position: CursorPosition { x: 100, y: 200, timestamp: 0, screen_id: Some(1) },
        button: MouseButton::Left,
        click_type: ClickType::Press,
        click_count: 1,
        modifiers: vec![KeyModifier::Command],
        confidence: 900_000,
    };
    assert_eq!(click.button, MouseButton::Left);
    assert_eq!(click.click_count, 1);
    assert_eq!(click.modifiers.len(), 1);
    assert_eq!(click.confidence, 900_000);
}

#[test]
fn cursor_tracker_test_configuration_update() {
    let mut tracker = CursorTracker::new();
    let new_config = CursorTrackingConfig {
        enable_position_tracking: false,
        enable_click_detection: true,
        enable_trail_analysis: false,
        min_movement_distance: 10,
        max_trail_gap_ms: 2000,
        min_confidence: 900_000,
        sampling_interval_ms: 200,
    };
    tracker.update_config(new_config.clone());
    assert!(!tracker.config.enable_position_tracking);
    assert_eq!(tracker.config.min_movement_distance, 10);
    assert_eq!(tracker.config.sampling_interval_ms, 200);
}

#[test]
fn movements_of_at_least_the_least_distance_are_reported() {
    let mut tracker = CursorTracker::new();
    assert!(tracker.track_cursor_position(at(0, 0, 1), "f", 1).unwrap().is_empty());
    // Four pixels are not enough; exactly five are.
    assert!(tracker.track_cursor_position(at(4, 0, 2), "f", 2).unwrap().is_empty());
    let events = tracker.track_cursor_position(at(7, 4, 3), "f3", 3).unwrap();
    assert_eq!(events.len(), 1);
    let e = &events[0];
    assert_eq!(e.event_type, EventType::Navigation);
    assert_eq!(e.target, "cursor_movement");
    assert_eq!(e.value_from.as_deref(), Some("4,0"));
    assert_eq!(e.value_to.as_deref(), Some("7,4"));
    assert_eq!(e.confidence, 800_000);
    assert_eq!(e.evidence_frames, vec!["f3".to_string()]);
    assert_eq!(e.metadata.get("distance").map(|s| s.as_str()), Some("5000"));
    assert_eq!(e.metadata.get("previous_x").map(|s| s.as_str()), Some("4"));
    assert_eq!(e.metadata.get("screen_id"), None);
    assert_eq!(tracker.get_current_position(), Some(at(7, 4, 3)));
    assert_eq!(tracker.get_position_history().len(), 3);
    let on_screen = CursorPosition { x: -20, y: 4, timestamp: 4, screen_id: Some(2) };
    let events = tracker.track_cursor_position(on_screen, "f4", 4).unwrap();
    assert_eq!(events[0].value_to.as_deref(), Some("-20,4"));
    assert_eq!(events[0].metadata.get("screen_id").map(|s| s.as_str()), Some("2"));
    tracker.max_history_size = 2;
    tracker.track_cursor_position(at(0, 0, 5), "f", 5).unwrap();
    assert_eq!(tracker.position_history, vec![on_screen, at(0, 0, 5)]);
    tracker.clear_history();
    assert!(tracker.position_history.is_empty());
    assert!(tracker.get_current_position().is_none());
}

#[test]
fn a_rest_after_an_approach_suggests_a_click() {
    let mut tracker = CursorTracker::new();
    let path = [(0, 0), (40, 0), (100, 100), (101, 100), (100, 101), (102, 100), (101, 101)];
    for (i, (x, y)) in path.iter().enumerate() {
        assert!(tracker.detect_click_pattern().unwrap().is_none());
        tracker.track_cursor_position(at(*x, *y, i as i64), "f", i as i64).unwrap();
    }
    let click = tracker.detect_click_pattern().unwrap().unwrap();
    assert_eq!(click.position, at(101, 101, 6));
    assert_eq!(click.button, MouseButton::Left);
    assert_eq!(click.click_type, ClickType::Press);
    assert_eq!(click.click_count, 1);
    assert!(click.modifiers.is_empty());
    assert_eq!(click.confidence, 560_000);
    let events = tracker.detect_click_events("f7", 70).unwrap();
    assert_eq!(events.len(), 1);
    assert_eq!(events[0].target, "click_101_101");
    assert_eq!(events[0].value_to.as_deref(), Some("Left"));
    assert_eq!(events[0].metadata.get("event_type").map(|s| s.as_str()), Some("mouse_click"));
    assert_eq!(events[0].metadata.get("click_type").map(|s| s.as_str()), Some("Press"));
    assert_eq!(events[0].metadata.get("modifiers"), None);
    assert_eq!(tracker.get_click_history().len(), 1);
    // One more reading five pixels away: no rest any more.
    tracker.track_cursor_position(at(106, 101, 7), "f", 7).unwrap();
    assert!(tracker.detect_click_pattern().unwrap().is_none());
    // A rest without an approach suggests nothing.
    let mut still = CursorTracker::new();
    for i in 0..10 {
        still.track_cursor_position(at(5, 5, i), "f", i).unwrap();
    }
    assert!(still.detect_click_pattern().unwrap().is_none());
}

#[test]
fn modifier_keys_are_noted_with_the_click() {
    let tracker = CursorTracker::new();
    let click = ClickEvent {
        position: at(1, 2, 3),
        button: MouseButton::Other(4),
        click_type: ClickType::Scroll,
        click_count: 3,
        modifiers: vec![KeyModifier::Command, KeyModifier::Shift, KeyModifier::Function],
        confidence: 1,
    };
    let m = tracker.create_click_metadata(&click);
    assert_eq!(m.get("modifiers").map(|s| s.as_str()), Some("Command,Shift,Function"));
    assert_eq!(m.get("button").map(|s| s.as_str()), Some("Other(4)"));
    assert_eq!(m.get("click_count").map(|s| s.as_str()), Some("3"));
    assert_eq!(MouseButton::Right.name(), "Right");
    assert_eq!(MouseButton::Middle.name(), "Middle");
    assert_eq!(MouseButton::Other(-2).name(), "Other(-2)");
    assert_eq!(ClickType::Release.name(), "Release");
    assert_eq!(KeyModifier::Option.name(), "Option");
    assert_eq!(KeyModifier::Control.name(), "Control");
    assert_eq!(TrailType::Linear.name(), "Linear");
    assert_eq!(TrailType::Stationary.name(), "Stationary");
}

#[test]
fn test_navigation_detector_creation() {
    let detector = NavigationDetector::new();
    assert!(detector.previous_window_state.is_none());
    assert!(detector.previous_tab_state.is_none());
    assert!(detector.focus_history.is_empty());
}

#[test]
fn test_window_state_equality() {
    let state1 = WindowState {
        app_name: "Safari".to_string(),
        window_title: "Test Page".to_string(),
        window_id: Some(123),
        bundle_id: Some("com.apple.Safari".to_string()),
        process_id: 456,
        timestamp: 1,
    };
    let mut state2 = state1.clone();
    assert!(windows_equal(&state1, &state2));
    state2.window_title = "Different Page".to_string();
    assert!(!windows_equal(&state1, &state2));
}

#[test]
fn test_tab_state_equality() {
    let tab1 = TabState {
        app_name: "Safari".to_string(),
        tab_title: "Test Page".to_string(),
        url: Some("https://example.com".to_string()),
        tab_index: Some(1),
        timestamp: 1,
    };
    let mut tab2 = tab1.clone();
    assert!(tabs_equal(&tab1, &tab2));
    tab2.url = Some("https://different.com".to_string());
    assert!(!tabs_equal(&tab1, &tab2));
    tab2.url = None;
    assert!(!tabs_equal(&tab1, &tab2));
}

#[test]
fn navigation_detector_test_configuration_update() {
    let mut detector = NavigationDetector::new();
    let new_config = NavigationDetectionConfig {
        enable_window_detection: false,
        enable_tab_detection: true,
        enable_focus_detection: false,
        min_detection_interval_ms: 500,
        min_confidence: 900_000,
    };
    detector.update_config(new_config.clone());
    assert!(!detector.config.enable_window_detection);
    assert_eq!(detector.config.min_detection_interval_ms, 500);
    assert_eq!(detector.config.min_confidence, 900_000);
}

#[test]
fn test_focus_history_management() {
    let mut detector = NavigationDetector::new();
    detector.max_history_size = 3;
    for i in 0..5 {
        let focus_event = FocusEvent {
            from_app: None,
            to_app: format!("App{}", i),
            from_bundle_id: None,
            to_bundle_id: format!("com.app{}", i),
            timestamp: i * 1000 * MS,
            confidence: 800_000,
        };
        let events = detector.detect_focus_changes(focus_event, "f", i * 1000 * MS).unwrap();
        assert_eq!(events.len(), 1);
    }
    assert_eq!(detector.focus_history.len(), 3);
    assert_eq!(detector.focus_history[0].to_app, "App2");
    assert_eq!(detector.focus_history[2].to_app, "App4");
}

#[test]
fn test_metadata_creation() {
    let current = WindowState {
        app_name: "Safari".to_string(),
        window_title: "New Page".to_string(),
        window_id: Some(123),
        bundle_id: Some("com.apple.Safari".to_string()),
        process_id: 456,
        timestamp: 2,
    };
    let previous = WindowState {
        app_name: "Safari".to_string(),
        window_title: "Old Page".to_string(),
        window_id: Some(122),
        bundle_id: Some("com.apple.Safari".to_string()),
        process_id: 456,
        timestamp: 1,
    };
    let metadata = NavigationDetector::create_window_metadata(&current, &previous);
    assert_eq!(metadata.get("change_type"), Some(&"window_change".to_string()));
    assert_eq!(metadata.get("current_window"), Some(&"New Page".to_string()));
    assert_eq!(metadata.get("previous_window"), Some(&"Old Page".to_string()));
    assert_eq!(metadata.get("window_id"), Some(&"123".to_string()));
}

#[test]
fn window_changes() {
    let mut detector = NavigationDetector::new();
    assert!(detector.detect_window_changes(window("Mail", "Inbox", 0), "f0", 0).unwrap().is_empty());
    // Another application after enough time.
    let events = detector.detect_window_changes(window("Safari", "Start", 100 * MS), "f1", 100 * MS).unwrap();
    assert_eq!(events.len(), 1);
    let e = &events[0];
    assert_eq!(e.event_type, EventType::Navigation);
    assert_eq!(e.target, "window_Safari_456");
    assert_eq!(e.value_from.as_deref(), Some("Mail:Inbox"));
    assert_eq!(e.value_to.as_deref(), Some("Safari:Start"));
    assert_eq!(e.confidence, 800_000);
    assert_eq!(e.metadata.get("change_type").map(|s| s.as_str()), Some("application_switch"));
    assert_eq!(e.metadata.get("previous_bundle_id").map(|s| s.as_str()), Some("com.example.Mail"));
    assert_eq!(e.metadata.get("current_process_id").map(|s| s.as_str()), Some("456"));
    // Too soon after the reading before: not reported, but remembered.
    let soon = detector.detect_window_changes(window("Safari", "Other", 199 * MS), "f2", 199 * MS).unwrap();
    assert!(soon.is_empty());
    assert_eq!(detector.get_current_window().unwrap().window_title, "Other");
    // The same window read again at a later time counts as in front again.
    let again = detector.detect_window_changes(window("Safari", "Other", 400 * MS), "f3", 400 * MS).unwrap();
    assert_eq!(again[0].metadata.get("change_type").map(|s| s.as_str()), Some("window_focus_change"));
    // A reading that says the same in every part is no change.
    let same = detector.detect_window_changes(window("Safari", "Other", 400 * MS), "f4", 900 * MS).unwrap();
    assert!(same.is_empty());
    let mut unnamed = window("Safari", "Other", 2000 * MS);
    unnamed.bundle_id = None;
    unnamed.window_id = None;
    let e = detector.detect_window_changes(unnamed, "f5", 2000 * MS).unwrap();
    assert_eq!(e[0].metadata.get("current_bundle_id").map(|s| s.as_str()), Some(""));
    assert_eq!(e[0].metadata.get("window_id"), None);
    detector.clear_state();
    assert!(detector.get_current_window().is_none());
}

#[test]
fn tab_changes() {
    let mut detector = NavigationDetector::new();
    let tab = |title: &str, url: Option<&str>, index: Option<i32>, t: i64| TabState {
        app_name: "Safari".to_string(),
        tab_title: title.to_string(),
        url: url.map(|u| u.to_string()),
        tab_index: index,
        timestamp: t,
    };
    assert!(detector.detect_tab_changes(None, "f", 0).unwrap().is_empty());
    assert!(detector.detect_tab_changes(Some(tab("One", None, Some(1), 0)), "f", 0).unwrap().is_empty());
    let events = detector
        .detect_tab_changes(Some(tab("Two", Some("https://two"), None, 500 * MS)), "f1", 500 * MS)
        .unwrap();
    assert_eq!(events.len(), 1);
    let e = &events[0];
    assert_eq!(e.target, "tab_Safari_0");
    assert_eq!(e.value_from.as_deref(), Some("One"));
    assert_eq!(e.value_to.as_deref(), Some("Two"));
    assert_eq!(e.confidence, 720_000);
    assert_eq!(e.metadata.get("current_url").map(|s| s.as_str()), Some("https://two"));
    assert_eq!(e.metadata.get("previous_url"), None);
    assert_eq!(e.metadata.get("tab_index"), None);
    // Without a tab nothing changes and the last tab stays.
    assert!(detector.detect_tab_changes(None, "f", 900 * MS).unwrap().is_empty());
    assert_eq!(detector.get_current_tab().unwrap().tab_title, "Two");
    let events = detector
        .detect_tab_changes(Some(tab("Three", None, Some(7), 1000 * MS)), "f2", 1000 * MS)
        .unwrap();
    assert_eq!(events[0].target, "tab_Safari_7");
    assert_eq!(events[0].metadata.get("previous_url").map(|s| s.as_str()), Some("https://two"));
    assert_eq!(events[0].metadata.get("tab_index").map(|s| s.as_str()), Some("7"));
}

#[test]
fn focus_changes() {
    let mut detector = NavigationDetector::new();
    let first = detector.detect_focus_changes(focus("Mail", 0), "f0", 0).unwrap();
    assert_eq!(first.len(), 1);
    assert_eq!(first[0].target, "focus_com.mail");
    assert_eq!(first[0].value_from, None);
    assert_eq!(first[0].value_to.as_deref(), Some("Mail"));
    assert_eq!(first[0].confidence, 800_000);
    // The same application again is no change, however late.
    assert!(detector.detect_focus_changes(focus("Mail", 5000 * MS), "f", 5000 * MS).unwrap().is_empty());
    // Another application too soon after the last reported change is not reported.
    assert!(detector.detect_focus_changes(focus("Safari", 99 * MS), "f", 99 * MS).unwrap().is_empty());
    let mut next = focus("Safari", 100 * MS);
    next.from_app = Some("Mail".to_string());
    next.from_bundle_id = Some("com.mail".to_string());
    let events = detector.detect_focus_changes(next, "f", 100 * MS).unwrap();
    assert_eq!(events[0].value_from.as_deref(), Some("Mail"));
    assert_eq!(events[0].metadata.get("from_bundle_id").map(|s| s.as_str()), Some("com.mail"));
    assert_eq!(detector.get_focus_history().len(), 2);
}

#[test]
fn readings_of_one_instant() {
    let mut detector = NavigationDetector::new();
    let readings = |w: Option<WindowState>, f: Option<FocusEvent>| NavigationReadings {
        window: w,
        tab: Some(None),
        focus: f,
    };
    let none = detector
        .detect_navigation_events("f0", 0, readings(Some(window("Mail", "Inbox", 0)), None))
        .unwrap();
    assert!(none.is_empty());
    let both = detector
        .detect_navigation_events(
            "f1",
            1000 * MS,
            readings(Some(window("Safari", "Start", 1000 * MS)), Some(focus("Safari", 1000 * MS))),
        )
        .unwrap();
    let targets: Vec<_> = both.iter().map(|e| e.target.as_str()).collect();
    assert_eq!(targets, vec!["window_Safari_456", "focus_com.safari"]);
    // A probe that failed leaves what is known as it is.
    let failed = detector
        .detect_navigation_events("f2", 2000 * MS, NavigationReadings { window: None, tab: None, focus: None })
        .unwrap();
    assert!(failed.is_empty());
    assert_eq!(detector.get_current_window().unwrap().app_name, "Safari");
    // What is switched off is not looked at.
    let mut off = NavigationDetector::with_config(NavigationDetectionConfig {
        enable_window_detection: false,
        enable_focus_detection: false,
        ..NavigationDetectionConfig::default()
    });
    let events = off
        .detect_navigation_events(
            "f",
            0,
            readings(Some(window("Mail", "Inbox", 0)), Some(focus("Mail", 0))),
        )
        .unwrap();
    assert!(events.is_empty());
    assert!(off.get_current_window().is_none());
    assert!(off.get_focus_history().is_empty());
}

#[test]
fn answers_of_the_probes() {
    let w = parse_window_response("  Safari|Start Page|com.apple.Safari|456|123\n", 9).unwrap();
    assert_eq!(w.app_name, "Safari");
    assert_eq!(w.window_title, "Start Page");
    assert_eq!(w.bundle_id.as_deref(), Some("com.apple.Safari"));
    assert_eq!(w.process_id, 456);
    assert_eq!(w.window_id, Some(123));
    assert_eq!(w.timestamp, 9);
    let w = parse_window_response("Finder|||x|0|more", 1).unwrap();
    assert_eq!(w.window_title, "");
    assert_eq!(w.bundle_id, None);
    assert_eq!(w.process_id, 0);
    assert_eq!(w.window_id, None);
    let w = parse_window_response("a|b|c|1|nine", 1).unwrap();
    assert_eq!(w.window_id, None);
    assert_eq!(parse_window_response("a|b|c|1", 1).unwrap_err().to_string(), "Navigation detection error: Invalid AppleScript response");
    assert!(parse_window_response("", 1).is_err());

    let t = parse_tab_response("Safari", "News|https://news.example|4", 2).unwrap();
    assert_eq!(t.app_name, "Safari");
    assert_eq!(t.tab_title, "News");
    assert_eq!(t.url.as_deref(), Some("https://news.example"));
    assert_eq!(t.tab_index, Some(4));
    let t = parse_tab_response("Google Chrome", "||0", 2).unwrap();
    assert_eq!(t.tab_title, "");
    assert_eq!(t.url, None);
    assert_eq!(t.tab_index, Some(0));
    assert!(parse_tab_response("Safari", "only|two", 2).is_err());

    assert_eq!(parse_cursor_response("12,-7\n", 5).unwrap(), at(12, -7, 5));
    assert_eq!(parse_cursor_response("12", 5).unwrap_err().to_string(), "Cursor tracking error: Invalid cursor position response");
    assert_eq!(parse_cursor_response("1,2,3", 5).unwrap_err().to_string(), "Cursor tracking error: Invalid cursor position response");
    assert_eq!(parse_cursor_response("x,2", 5).unwrap_err().to_string(), "Cursor tracking error: Invalid X coordinate");
    assert_eq!(parse_cursor_response("1, 2", 5).unwrap_err().to_string(), "Cursor tracking error: Invalid Y coordinate");

    assert_eq!(parse_app_info("Xcode|main.rs\n"), ("Xcode".to_string(), "main.rs".to_string()));
    assert_eq!(parse_app_info("Xcode"), ("Xcode".to_string(), "Unknown".to_string()));
    assert_eq!(parse_app_info(""), ("".to_string(), "Unknown".to_string()));
    assert_eq!(parse_app_info("a|b|c"), ("a".to_string(), "b".to_string()));

    let mut detector = NavigationDetector::new();
    let f = focus_reading(&detector, &window("Mail", "Inbox", 0), 3);
    assert_eq!(f.to_app, "Mail");
    assert_eq!(f.to_bundle_id, "com.example.Mail");
    assert_eq!(f.from_app, None);
    assert_eq!(f.confidence, 800_000);
    assert_eq!(f.timestamp, 3);
    detector.detect_focus_changes(f, "f", 3).unwrap();
    let mut bare = window("Safari", "Start", 0);
    bare.bundle_id = None;
    let f = focus_reading(&detector, &bare, 4);
    assert_eq!(f.to_bundle_id, "unknown");
    assert_eq!(f.from_app.as_deref(), Some("Mail"));
    assert_eq!(f.from_bundle_id.as_deref(), Some("com.example.Mail"));
}

#[test]
fn frames_are_processed_and_counted() {
    let mut service = NavigationIntegrationService::new("events").unwrap();
    assert_eq!(service.config, NavigationIntegrationConfig::default());
    assert_eq!(service.event_writer.buffer.batch_size, 50);
    let readings = |t: i64, app: &str, x: i32| ProbeReadings {
        navigation: NavigationReadings {
            window: Some(window(app, "Main", t)),
            tab: Some(None),
            focus: Some(focus(app, t)),
        },
        cursor: Some(at(x, 0, t)),
    };
    let first = service.process_frame("f0", 0, readings(0, "Mail", 0), 3).unwrap();
    // The first reading of the focus is a change already.
    assert_eq!(first.detected_events.len(), 1);
    assert_eq!(first.metrics.navigation_events, 1);
    assert_eq!(first.metrics.cursor_events, 0);
    assert_eq!(first.metrics.total_events_detected, 1);
    assert_eq!(first.metrics.processing_time_ms, 3);
    assert_eq!(first.metrics.last_update, Some(0));
    assert_eq!(first.timestamp, 0);
    let second = service.process_frame("f1", 500 * MS, readings(500 * MS, "Safari", 30), 4).unwrap();
    let targets: Vec<_> = second.detected_events.iter().map(|e| e.target.as_str()).collect();
    assert_eq!(targets, vec!["window_Safari_456", "focus_com.safari", "cursor_movement"]);
    assert_eq!(second.metrics.navigation_events, 3);
    assert_eq!(second.metrics.cursor_events, 1);
    assert_eq!(second.metrics.total_events_detected, 4);
    assert_eq!(second.metrics.processing_time_ms, 7);
    assert_eq!(second.metrics.correlation_events as usize, second.correlations.len());
    assert_eq!(service.metrics, second.metrics);
    assert_eq!(service.event_writer.buffer.len(), 4);
    let kinds: Vec<_> = service.event_correlator.event_buffer.iter().map(|e| e.event_type).collect();
    assert!(kinds.contains(&CorrelationEventType::WindowChange));
    assert!(kinds.contains(&CorrelationEventType::FocusChange));
    assert!(kinds.contains(&CorrelationEventType::CursorMovement));
    assert!(kinds.contains(&CorrelationEventType::ScreenChange));
    let times: Vec<_> = service.event_correlator.event_buffer.iter().map(|e| e.timestamp).collect();
    let mut sorted = times.clone();
    sorted.sort();
    assert_eq!(times, sorted);
    let counts = service.get_navigation_counts();
    assert_eq!(counts.total_events, 4);
    assert_eq!(counts.average_processing_time_ms, 1);
    assert_eq!(counts.error_count, 0);
    service.record_error();
    assert_eq!(service.get_navigation_counts().error_count, 1);
    assert_eq!(service.get_recent_cursor_positions(), vec![at(0, 0, 0), at(30, 0, 500 * MS)]);
    assert_eq!(service.get_current_window_state().unwrap().app_name, "Safari");
    assert_eq!(service.get_focus_history().len(), 2);
    // Probes that all failed give nothing, and nothing stops.
    let nothing = ProbeReadings {
        navigation: NavigationReadings { window: None, tab: None, focus: None },
        cursor: None,
    };
    let third = service.process_frame("f2", 9000 * MS, nothing, 0).unwrap();
    assert!(third.detected_events.is_empty());
    assert_eq!(third.metrics.total_events_detected, 4);
    let mut config = NavigationIntegrationConfig::default();
    config.event_batch_size = 10;
    config.cursor_config.min_movement_distance = 50;
    service.update_config(config);
    assert_eq!(service.cursor_tracker.config.min_movement_distance, 50);
}

#[test]
fn navigation_integration_test_configuration_update() {
    let mut service = NavigationIntegrationService::new("events").unwrap();

    let mut new_config = NavigationIntegrationConfig::default();
    new_config.enable_comprehensive_logging = false;
    new_config.event_batch_size = 100;
    new_config.processing_interval_ms = 200;

    service.update_config(new_config.clone());
    assert!(!service.config.enable_comprehensive_logging);
    assert_eq!(service.config.event_batch_size, 100);
    assert_eq!(service.config.processing_interval_ms, 200);
}
