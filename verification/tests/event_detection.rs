use keyframe_indexer::delta_analyzer::{DeltaAnalysisConfig, DeltaAnalyzer, TemporalPattern};
use keyframe_indexer::events::{
    calculate_text_dissimilarity, convert_error_modal_to_detected_event, create_field_change_event,
    find_best_match, generate_field_id, DetectedEvent, EventDetectionConfig, EventDetector, EventType,
};
use keyframe_indexer::error_modal::ErrorModalDetector;
use keyframe_indexer::geometry::BoundingBox;
use keyframe_indexer::keyvalue::Metadata;
use keyframe_indexer::ocr::OCRResult;

fn ocr(frame_id: &str, text: &str, x: i32, y: i32, w: u32, h: u32, confidence: u32) -> OCRResult {
    OCRResult {
        frame_id: frame_id.to_string(),
        roi: BoundingBox::new(x, y, w, h),
        text: text.to_string(),
        language: "en-US".to_string(),
        confidence,
        processed_at: 0,
        processor: "vision".to_string(),
    }
}

fn note<'a>(m: &'a Metadata, key: &str) -> Option<&'a str> {
    m.get(key).map(|s| s.as_str())
}

#[test]
fn test_event_detector_creation() {
    let detector = EventDetector::new().unwrap();
    assert!(detector.previous_frame_cache.is_empty());
    assert!(detector.get_field_states().is_empty());
    assert!(detector.get_field_changes().is_empty());
}

#[test]
fn test_event_detector_with_custom_config() {
    let config = EventDetectionConfig {
        min_ocr_confidence: 800_000,
        min_event_confidence: 700_000,
        ..EventDetectionConfig::default()
    };
    let detector = EventDetector::with_config(config).unwrap();
    assert_eq!(detector.config.min_ocr_confidence, 800_000);
    assert_eq!(detector.config.min_event_confidence, 700_000);
    assert_eq!(detector.config.min_iou_threshold, 300_000);
    assert_eq!(detector.config.min_text_similarity, 800_000);
    assert_eq!(detector.config.max_frame_gap_seconds, 10);
}

#[test]
fn event_detector_test_error_message_detection() {
    let detector = EventDetector::new().unwrap();
    assert!(detector.is_error_message("Error: Invalid input"));
    assert!(detector.is_error_message("Login failed"));
    assert!(detector.is_error_message("Cannot connect to server"));
    assert!(!detector.is_error_message("Welcome to the application"));
}

#[test]
fn event_detector_test_modal_dialog_detection() {
    let detector = EventDetector::new().unwrap();
    assert!(detector.is_modal_dialog("Confirm deletion"));
    assert!(detector.is_modal_dialog("OK"));
    assert!(detector.is_modal_dialog("Cancel"));
    assert!(!detector.is_modal_dialog("Regular text content"));
}

#[test]
fn event_detector_test_form_submission_detection() {
    let detector = EventDetector::new().unwrap();
    assert!(detector.is_form_submission("Submit"));
    assert!(detector.is_form_submission("Login"));
    assert!(detector.is_form_submission("Sign up"));
    assert!(!detector.is_form_submission("Regular button"));
}

#[test]
fn words_are_found_whatever_their_case() {
    let detector = EventDetector::new().unwrap();
    // None of these would be found in the text as it stands.
    assert!(detector.is_error_message("FATAL EXCEPTION"));
    assert!(detector.is_modal_dialog("NOTIFICATION"));
    assert!(detector.is_form_submission("REGISTER"));
    assert!(detector.is_interactive_element("ENTER NAME"));
    assert!(!detector.is_error_message("ERR"));
}

#[test]
fn interactive_elements() {
    let detector = EventDetector::new().unwrap();
    assert!(detector.is_interactive_element("Username:"));
    assert!(detector.is_interactive_element("john@example.com"));
    assert!(detector.is_interactive_element("12345"));
    assert!(detector.is_interactive_element("Please select a colour"));
    assert!(detector.is_interactive_element("Choose one"));
    assert!(detector.is_interactive_element("input"));
    // A text without characters is purely numeric.
    assert!(detector.is_interactive_element(""));
    assert!(!detector.is_interactive_element("Hello world"));
    assert!(!detector.is_interactive_element("12a45"));
    assert!(!detector.is_interactive_element("a: b"));
}

#[test]
fn test_simple_event_detection() {
    let mut detector = EventDetector::new().unwrap();
    let timestamp = 1_700_000_000_000_000_000i64;

    let frame1_ocr = vec![
        ocr("frame1", "Username:", 10, 50, 80, 20, 950_000),
        ocr("frame1", "", 100, 50, 200, 20, 800_000),
    ];
    let _events1 = detector.analyze_frame("frame1", &frame1_ocr, timestamp, 1920, 1080).unwrap();

    let frame2_ocr = vec![
        ocr("frame2", "Username:", 10, 50, 80, 20, 950_000),
        ocr("frame2", "john.doe", 100, 50, 200, 20, 920_000),
    ];
    let events2 = detector.analyze_frame("frame2", &frame2_ocr, timestamp, 1920, 1080).unwrap();
    let field_changes: Vec<_> =
        events2.iter().filter(|e| e.event_type == EventType::FieldChange).collect();
    assert!(!field_changes.is_empty());

    let error_ocr = vec![ocr("frame3", "Error: Invalid input", 50, 100, 200, 20, 930_000)];
    let error_events = detector.analyze_frame("frame3", &error_ocr, timestamp, 1920, 1080).unwrap();
    let errors: Vec<_> =
        error_events.iter().filter(|e| e.event_type == EventType::ErrorDisplay).collect();
    assert!(!errors.is_empty());

    let similarity1 = detector.calculate_text_similarity("hello", "hello");
    assert_eq!(similarity1, 1_000_000);
    let similarity2 = detector.calculate_text_similarity("hello", "hallo");
    assert!(similarity2 >= 800_000 && similarity2 < 1_000_000);
    let similarity3 = detector.calculate_text_similarity("hello", "world");
    assert!(similarity3 < 500_000);

    let bbox1 = BoundingBox::new(0, 0, 100, 100);
    let bbox2 = BoundingBox::new(50, 50, 100, 100);
    let bbox3 = BoundingBox::new(200, 200, 100, 100);
    let iou1 = bbox1.iou(&bbox2);
    assert!(iou1 > 0 && iou1 < 1_000_000);
    assert_eq!(bbox1.iou(&bbox3), 0);
    assert!((bbox1.iou(&bbox1) as i64 - 1_000_000).abs() < 1000);
}

#[test]
fn text_similarity_exact_values() {
    let detector = EventDetector::new().unwrap();
    assert_eq!(detector.calculate_text_similarity("hello", "hallo"), 800_000);
    assert_eq!(detector.calculate_text_similarity("hello", "world"), 200_000);
    assert_eq!(detector.calculate_text_similarity("", ""), 1_000_000);
    assert_eq!(detector.calculate_text_similarity("hello", ""), 0);
    assert_eq!(detector.calculate_text_similarity("", "x"), 0);
    assert_eq!(detector.calculate_text_similarity("abc", "xyz"), 0);
    // One change in three characters: a third, rounded down, is taken off.
    assert_eq!(calculate_text_dissimilarity("abc", "abd"), 333_333);
    assert_eq!(detector.calculate_text_similarity("abc", "abd"), 666_667);
    // The lengths are counted in characters.
    assert_eq!(detector.calculate_text_similarity("äöü", "äöx"), 666_667);
}

#[test]
fn field_change_scenario() {
    let mut detector = EventDetector::new().unwrap();
    let frame1 = vec![
        ocr("f1", "Username:", 10, 50, 80, 20, 950_000),
        ocr("f1", "", 100, 50, 200, 20, 800_000),
    ];
    let events1 = detector.analyze_frame("f1", &frame1, 1000, 1920, 1080).unwrap();
    assert!(events1.iter().all(|e| e.event_type != EventType::FieldChange));
    let frame2 = vec![
        ocr("f2", "Username:", 10, 50, 80, 20, 950_000),
        ocr("f2", "john.doe", 100, 50, 200, 20, 920_000),
    ];
    let events2 = detector.analyze_frame("f2", &frame2, 2000, 1920, 1080).unwrap();
    let changes: Vec<&DetectedEvent> =
        events2.iter().filter(|e| e.event_type == EventType::FieldChange).collect();
    assert_eq!(changes.len(), 1);
    let c = changes[0];
    assert_eq!(c.value_from, Some("".to_string()));
    assert_eq!(c.value_to, Some("john.doe".to_string()));
    assert_eq!(c.target, "field_100_50_200_20");
    assert!(c.confidence >= 600_000);
    // 0.4 * (0.92 + 0.8) / 2 + 0.3 * 1 + 0.3 * 1.
    assert_eq!(c.confidence, 944_000);
    assert_eq!(c.evidence_frames, vec!["f2".to_string()]);
    assert_eq!(c.timestamp, 2000);
    assert_eq!(note(&c.metadata, "language"), Some("en-US"));
    assert_eq!(note(&c.metadata, "roi_x"), Some("100"));
    assert_eq!(note(&c.metadata, "roi_height"), Some("20"));
    assert_eq!(events2.len(), 1);
    // The tracker saw the change after the events were made.
    let history = detector.get_field_changes();
    assert_eq!(history.len(), 1);
    assert_eq!(history[0].field_id, "field_100_50_200_20");
    assert_eq!(history[0].value_from, "");
    assert_eq!(history[0].value_to, "john.doe");
    assert_eq!(history[0].confidence, 920_000);
    let fields = detector.get_field_states();
    assert_eq!(fields.len(), 2);
    assert_eq!(fields[1].state.value, "john.doe");
    assert_eq!(fields[1].state.frame_id, "f2");
    assert_eq!(fields[1].state.last_updated, 2000);
    assert_eq!(fields[0].field_id, "field_10_50_80_20");
}

#[test]
fn field_identifiers_are_made_of_the_four_numbers() {
    assert_eq!(generate_field_id(&BoundingBox::new(100, 50, 200, 20)), "field_100_50_200_20");
    assert_eq!(generate_field_id(&BoundingBox::new(-7, 0, 0, 4294967295)), "field_-7_0_0_4294967295");
    assert_eq!(
        generate_field_id(&BoundingBox::new(i32::MIN, i32::MAX, 1, 2)),
        "field_-2147483648_2147483647_1_2"
    );
    let d = EventDetector::new().unwrap();
    let roi = BoundingBox::new(3, 4, 5, 6);
    assert_eq!(d.generate_field_id(&roi), d.generate_field_id(&roi));
}

#[test]
fn regions_match_the_region_that_overlaps_most() {
    let previous = vec![
        ocr("p", "a", 0, 0, 100, 100, 900_000),
        ocr("p", "b", 10, 0, 100, 100, 900_000),
        ocr("p", "c", 10, 0, 100, 100, 900_000),
        ocr("p", "d", 500, 500, 10, 10, 900_000),
    ];
    // Overlaps the second and the third alike, and more than the first: the second wins.
    assert_eq!(find_best_match(&BoundingBox::new(12, 0, 100, 100), &previous, 300_000), Some(1));
    assert_eq!(find_best_match(&BoundingBox::new(0, 0, 100, 100), &previous, 300_000), Some(0));
    // No overlap reaches the threshold.
    assert_eq!(find_best_match(&BoundingBox::new(90, 90, 100, 100), &previous, 300_000), None);
    assert_eq!(find_best_match(&BoundingBox::new(0, 0, 100, 100), &Vec::new(), 0), None);
    // An overlap of exactly the threshold counts: 50 of 150 pixels.
    let half = vec![ocr("p", "x", 0, 0, 10, 10, 900_000)];
    assert_eq!(find_best_match(&BoundingBox::new(5, 0, 10, 10), &half, 333_333), Some(0));
    assert_eq!(find_best_match(&BoundingBox::new(5, 0, 10, 10), &half, 333_334), None);
    // With a threshold of 0 even a region far away matches.
    assert_eq!(find_best_match(&BoundingBox::new(900, 900, 1, 1), &half, 0), Some(0));
}

#[test]
fn field_change_confidence_exact() {
    let current = ocr("f", "abcd", 0, 0, 10, 10, 900_000);
    let previous = ocr("f", "abcx", 5, 0, 10, 10, 700_000);
    let e = create_field_change_event("f2", &current, &previous, 9, "the-id".to_string());
    // 0.4 * 0.8 + 0.3 * (1/3) + 0.3 * (1/4).
    assert_eq!(e.confidence, 494_999);
    assert_eq!(e.id, "the-id");
    assert_eq!(e.target, "field_0_0_10_10");
    assert_eq!(e.value_from.as_deref(), Some("abcx"));
    assert_eq!(e.value_to.as_deref(), Some("abcd"));
    assert_eq!(e.evidence_frames.len(), 1);
    // Confidences beyond 1 are cut.
    let wild = ocr("f", "zzzz", 0, 0, 10, 10, u32::MAX);
    let e = create_field_change_event("f2", &wild, &wild, 9, "x".to_string());
    assert_eq!(e.confidence, 1_000_000);
}

#[test]
fn new_regions_that_look_like_input_give_data_entry() {
    let mut detector = EventDetector::new().unwrap();
    let frame1 = vec![ocr("f1", "Title", 0, 0, 50, 10, 900_000)];
    detector.analyze_frame("f1", &frame1, 1, 1920, 1080).unwrap();
    let frame2 = vec![
        ocr("f2", "Title", 0, 0, 50, 10, 900_000),
        ocr("f2", "Email:", 0, 100, 50, 10, 900_000),
        ocr("f2", "Plain words", 0, 200, 50, 10, 900_000),
        ocr("f2", "Phone:", 0, 300, 50, 10, 740_000),
    ];
    let events = detector.analyze_frame("f2", &frame2, 2, 1920, 1080).unwrap();
    let entries: Vec<_> = events.iter().filter(|e| e.event_type == EventType::DataEntry).collect();
    // The second label is under the least confidence: 0.8 * 0.74 < 0.6.
    assert_eq!(entries.len(), 1);
    assert_eq!(entries[0].target, "field_0_100_50_10");
    assert_eq!(entries[0].value_from, None);
    assert_eq!(entries[0].value_to.as_deref(), Some("Email:"));
    assert_eq!(entries[0].confidence, 720_000);
}

#[test]
fn words_give_standalone_events_in_order() {
    let detector = EventDetector::new().unwrap();
    let results = vec![
        ocr("f", "Error: cannot save, cancel?", 0, 0, 10, 10, 1_000_000),
        ocr("f", "nothing here", 0, 0, 10, 10, 900_000),
        ocr("f", "Submit", 0, 0, 10, 10, 500_000),
    ];
    let events = detector.detect_standalone_events("f", &results, 5).unwrap();
    let shape: Vec<(EventType, &str, u32)> =
        events.iter().map(|e| (e.event_type, e.target.as_str(), e.confidence)).collect();
    assert_eq!(
        shape,
        vec![
            (EventType::ErrorDisplay, "error_dialog", 900_000),
            (EventType::ModalAppearance, "modal_dialog", 850_000),
            (EventType::FormSubmission, "form_submit", 800_000),
            // "nothing" holds "no".
            (EventType::ModalAppearance, "modal_dialog", 765_000),
            (EventType::FormSubmission, "form_submit", 400_000),
        ]
    );
    assert_eq!(events[0].value_to.as_deref(), Some("Error: cannot save, cancel?"));
    let ids: std::collections::HashSet<_> = events.iter().map(|e| e.id.clone()).collect();
    assert_eq!(ids.len(), 5);
}

#[test]
fn errors_and_dialogs_become_detected_events() {
    let detector = ErrorModalDetector::new().unwrap();
    let fatal = ocr("f", "Fatal error", 0, 0, 10, 10, 900_000);
    let e = detector.analyze_text_for_errors_modals("f", &fatal, 3, 1000, 600).unwrap();
    let id = e.id.clone();
    let d = convert_error_modal_to_detected_event(e);
    assert_eq!(d.id, id);
    assert_eq!(d.event_type, EventType::ErrorDisplay);
    assert_eq!(d.target, "system_error_critical");
    assert_eq!(d.value_from, None);
    assert_eq!(d.value_to.as_deref(), Some("Fatal error"));
    assert_eq!(d.evidence_frames, vec!["f".to_string()]);
    assert_eq!(note(&d.metadata, "pattern_count"), Some("2"));
    let dialog = ocr("f", "Preferences", 0, 0, 10, 10, 900_000);
    let e = detector.analyze_text_for_errors_modals("f", &dialog, 3, 1000, 600).unwrap();
    let d = convert_error_modal_to_detected_event(e);
    assert_eq!(d.event_type, EventType::ModalAppearance);
    assert_eq!(d.target, "settings_dialog_info");
}

#[test]
fn regions_of_low_confidence_change_nothing() {
    let mut detector = EventDetector::new().unwrap();
    let weak = vec![ocr("f1", "Error: broken", 0, 0, 10, 10, 699_999)];
    let events = detector.analyze_frame("f1", &weak, 1, 1920, 1080).unwrap();
    assert!(events.is_empty());
    assert!(detector.previous_frame_cache.is_empty());
    assert!(detector.get_field_states().is_empty());
    let enough = vec![ocr("f1", "Error: broken", 0, 0, 10, 10, 700_000)];
    let events = detector.analyze_frame("f1", &enough, 1, 1920, 1080).unwrap();
    assert!(!events.is_empty());
    assert_eq!(detector.previous_frame_cache.len(), 1);
    for e in &events {
        assert!(e.confidence <= 1_000_000);
        assert!(!e.evidence_frames.is_empty());
    }
}

#[test]
fn only_the_last_ten_frames_are_kept() {
    let mut detector = EventDetector::new().unwrap();
    for i in 0..12 {
        let frame = vec![ocr("f", "steady", 0, 0, 10, 10, 900_000)];
        detector.analyze_frame(&format!("frame{}", i), &frame, i, 1920, 1080).unwrap();
    }
    assert_eq!(detector.previous_frame_cache.len(), 10);
    assert_eq!(detector.previous_frame_cache[0].frame_id, "frame2");
    assert_eq!(detector.previous_frame_cache[9].frame_id, "frame11");
    assert_eq!(detector.get_previous_frame_results().unwrap()[0].text, "steady");
    assert_eq!(detector.get_field_states().len(), 1);
    detector.clear_cache();
    assert!(detector.previous_frame_cache.is_empty());
    assert!(detector.get_previous_frame_results().is_none());
    assert_eq!(detector.get_field_states().len(), 1);
}

#[test]
fn event_type_names() {
    for (t, name) in [
        (EventType::FieldChange, "field_change"),
        (EventType::FormSubmission, "form_submission"),
        (EventType::ModalAppearance, "modal_appearance"),
        (EventType::ErrorDisplay, "error_display"),
        (EventType::Navigation, "navigation"),
        (EventType::DataEntry, "data_entry"),
    ] {
        assert_eq!(t.name(), name);
        assert_eq!(EventType::from_name(name), t);
    }
    assert_eq!(EventType::from_name("something else"), EventType::FieldChange);
    assert_eq!(EventType::from_name(""), EventType::FieldChange);
}

#[test]
fn notes_are_kept_in_order_and_can_be_replaced() {
    let mut m = Metadata::new();
    m.add("a", "1".to_string());
    m.insert("b", "2".to_string());
    m.insert("a", "3".to_string());
    assert_eq!(m.len(), 2);
    assert_eq!(note(&m, "a"), Some("3"));
    assert_eq!(note(&m, "b"), Some("2"));
    assert_eq!(note(&m, "c"), None);
    assert_eq!(m.find("b"), 1);
    assert_eq!(m.find("zz"), 2);
    assert_eq!(m.entries[0].0, "a");
    let copy = m.clone();
    assert_eq!(copy.entries, m.entries);
}

#[test]
fn delta_analyzer_reports_the_field_change_with_a_rare_pattern() {
    let mut analyzer = DeltaAnalyzer::new("ocr_dir", "event_dir").unwrap();
    assert_eq!(analyzer.config, DeltaAnalysisConfig::default());
    let frame1 = vec![
        ocr("f1", "Username:", 10, 50, 80, 20, 950_000),
        ocr("f1", "", 100, 50, 200, 20, 800_000),
    ];
    let events1 = analyzer.analyze_frame("f1", frame1, 1000).unwrap();
    assert!(events1.is_empty());
    let frame2 = vec![
        ocr("f2", "Username:", 10, 50, 80, 20, 950_000),
        ocr("f2", "john.doe", 100, 50, 200, 20, 920_000),
    ];
    let events2 = analyzer.analyze_frame("f2", frame2, 2000).unwrap();
    assert_eq!(events2.len(), 1);
    let e = &events2[0];
    assert_eq!(e.event_type, EventType::FieldChange);
    // One frame is remembered and it held no such event: 0.944 - 0.05.
    assert_eq!(e.confidence, 894_000);
    assert_eq!(note(&e.metadata, "temporal_pattern"), Some("rare_event"));
    assert_eq!(note(&e.metadata, "pattern_confidence"), Some("0"));
    assert_eq!(e.value_to.as_deref(), Some("john.doe"));
    // The event waits to be written and the frame is remembered.
    assert_eq!(analyzer.event_writer.buffer.len(), 1);
    assert_eq!(analyzer.event_writer.buffer.rows[0].id, e.id);
    assert_eq!(analyzer.frame_sequence.recent_frames.len(), 2);
    assert_eq!(analyzer.frame_sequence.recent_frames[1].frame_id, "f2");
    assert_eq!(analyzer.frame_sequence.recent_frames[1].detected_events.len(), 1);
    assert_eq!(analyzer.get_field_changes().len(), 1);
    assert_eq!(analyzer.get_current_field_states().len(), 2);
    assert_eq!(analyzer.get_current_field_states()[1].current_value, "john.doe");
}

#[test]
fn events_that_recur_gain_confidence() {
    let mut analyzer = DeltaAnalyzer::new("ocr_dir", "event_dir").unwrap();
    let mut confidences = Vec::new();
    let mut patterns = Vec::new();
    for i in 0..4 {
        let frame = vec![ocr("f", "Submit", 0, 0, 10, 10, 1_000_000)];
        let events = analyzer.analyze_frame(&format!("f{}", i), frame, i).unwrap();
        let e = events.iter().find(|e| e.event_type == EventType::FormSubmission).unwrap();
        confidences.push(e.confidence);
        patterns.push(note(&e.metadata, "temporal_pattern").map(|s| s.to_string()));
    }
    // 0.8 at first; then every remembered frame holds the event.
    assert_eq!(confidences, vec![800_000, 900_000, 900_000, 900_000]);
    assert_eq!(patterns[0], None);
    assert_eq!(patterns[1].as_deref(), Some("frequent_pattern"));
    assert_eq!(TemporalPattern::Occasional.name(), "occasional_pattern");
}

#[test]
fn temporal_context_counts_the_frames_with_a_similar_event() {
    let mut analyzer = DeltaAnalyzer::new("a", "b").unwrap();
    let submit = |id: &str| DetectedEvent {
        id: id.to_string(),
        timestamp: 0,
        event_type: EventType::FormSubmission,
        target: "form_submit".to_string(),
        value_from: None,
        value_to: None,
        confidence: 980_000,
        evidence_frames: vec!["f".to_string()],
        metadata: Metadata::new(),
    };
    let probe = submit("probe");
    assert!(analyzer.analyze_temporal_context(&probe).is_none());
    assert_eq!(analyzer.enhance_event(&probe).confidence, 980_000);
    // Frames with and without the event; they are kept in the order of their times.
    analyzer.update_frame_sequence("f3", Vec::new(), vec![submit("a")], 30);
    analyzer.update_frame_sequence("f1", Vec::new(), Vec::new(), 10);
    analyzer.update_frame_sequence("f2", Vec::new(), vec![submit("b"), submit("c")], 20);
    let order: Vec<_> =
        analyzer.frame_sequence.recent_frames.iter().map(|f| f.frame_id.clone()).collect();
    assert_eq!(order, vec!["f1", "f2", "f3"]);
    let context = analyzer.analyze_temporal_context(&probe).unwrap();
    assert_eq!(context.recent_occurrences, 2);
    assert_eq!(context.total_frames_analyzed, 3);
    assert_eq!(context.pattern_confidence, 666_666);
    assert_eq!(context.pattern_type, TemporalPattern::Occasional);
    let enhanced = analyzer.enhance_event(&probe);
    assert_eq!(enhanced.confidence, 1_000_000);
    assert_eq!(note(&enhanced.metadata, "pattern_confidence"), Some("666666"));
    assert_eq!(analyzer.calculate_temporal_confidence(20_000, &context), 70_000);
    let mut other = submit("other");
    other.target = "elsewhere".to_string();
    let context = analyzer.analyze_temporal_context(&other).unwrap();
    assert_eq!(context.pattern_type, TemporalPattern::Rare);
    assert_eq!(analyzer.calculate_temporal_confidence(20_000, &context), 0);
    assert!(analyzer.events_are_similar(&probe, &submit("z")));
    assert!(!analyzer.events_are_similar(&probe, &other));
    // Only so many frames are remembered.
    for i in 0..10 {
        analyzer.update_frame_sequence(&format!("g{}", i), Vec::new(), Vec::new(), 100 + i);
    }
    assert_eq!(analyzer.frame_sequence.recent_frames.len(), 5);
    assert_eq!(analyzer.frame_sequence.recent_frames[0].frame_id, "g5");
}

#[test]
fn events_under_the_least_confidence_are_not_reported() {
    let config = DeltaAnalysisConfig { min_event_confidence: 850_000, ..DeltaAnalysisConfig::default() };
    let mut analyzer = DeltaAnalyzer::with_config("a", "b", config).unwrap();
    let frame = vec![ocr("f", "Submit", 0, 0, 10, 10, 1_000_000)];
    // 0.8 at first.
    assert!(analyzer.analyze_frame("f0", frame.clone(), 0).unwrap().is_empty());
    // The first frame is remembered without the event: a rare event, 0.75.
    assert!(analyzer.analyze_frame("f1", frame.clone(), 1).unwrap().is_empty());
    assert_eq!(analyzer.event_writer.buffer.len(), 0);
    let off = DeltaAnalysisConfig { enable_temporal_context: false, ..DeltaAnalysisConfig::default() };
    let mut plain = DeltaAnalyzer::with_config("a", "b", off).unwrap();
    plain.analyze_frame("f0", frame.clone(), 0).unwrap();
    let events = plain.analyze_frame("f1", frame, 1).unwrap();
    assert_eq!(events.len(), 1);
    assert_eq!(events[0].confidence, 800_000);
    assert!(events[0].metadata.get("temporal_pattern").is_none());
}

#[test]
fn lists_of_events_are_adjusted_one_by_one() {
    let mut analyzer = DeltaAnalyzer::new("a", "b").unwrap();
    let submit = |id: &str, target: &str, confidence: u32| DetectedEvent {
        id: id.to_string(),
        timestamp: 0,
        event_type: EventType::FormSubmission,
        target: target.to_string(),
        value_from: None,
        value_to: None,
        confidence,
        evidence_frames: vec!["f".to_string()],
        metadata: Metadata::new(),
    };
    let events = vec![submit("a", "form_submit", 500_000), submit("b", "elsewhere", 30_000)];
    let same = analyzer.enhance_events_with_temporal_context(&events).unwrap();
    assert_eq!(same.iter().map(|e| e.confidence).collect::<Vec<_>>(), vec![500_000, 30_000]);
    assert_eq!(same[0].metadata.len(), 0);
    analyzer.update_frame_sequence("f1", Vec::new(), vec![submit("x", "form_submit", 1)], 10);
    let adjusted = analyzer.enhance_events_with_temporal_context(&events).unwrap();
    assert_eq!(adjusted.len(), 2);
    assert_eq!(adjusted[0].id, "a");
    assert_eq!(adjusted[0].confidence, 600_000);
    assert_eq!(note(&adjusted[0].metadata, "temporal_pattern"), Some("frequent_pattern"));
    assert_eq!(note(&adjusted[0].metadata, "pattern_confidence"), Some("1000000"));
    assert_eq!(adjusted[1].confidence, 0);
    assert_eq!(note(&adjusted[1].metadata, "temporal_pattern"), Some("rare_event"));
    assert_eq!(note(&adjusted[1].metadata, "pattern_confidence"), Some("0"));
}

#[test]
fn the_tracker_of_fields_is_brought_up_to_date_by_the_regions_of_a_frame() {
    let mut detector = EventDetector::new().unwrap();
    let first = vec![ocr("f1", "", 100, 50, 200, 20, 800_000)];
    detector.update_field_tracker("f1", &first, 10).unwrap();
    assert_eq!(detector.get_field_states().len(), 1);
    assert!(detector.get_field_changes().is_empty());
    let second = vec![
        ocr("f2", "john.doe", 100, 50, 200, 20, 920_000),
        ocr("f2", "Other", 0, 0, 10, 10, 900_000),
    ];
    detector.update_field_tracker("f2", &second, 20).unwrap();
    assert_eq!(detector.get_field_states().len(), 2);
    let changes = detector.get_field_changes();
    assert_eq!(changes.len(), 1);
    assert_eq!(changes[0].value_from, "");
    assert_eq!(changes[0].value_to, "john.doe");
    assert_eq!(changes[0].timestamp, 20);
    let field = &detector.get_field_states()[0];
    assert_eq!(field.field_id, detector.generate_field_id(&BoundingBox::new(100, 50, 200, 20)));
    assert_eq!(field.state.value, "john.doe");
    assert_eq!(field.state.frame_id, "f2");
}

#[test]
fn test_text_similarity() {
    let detector = EventDetector::new().unwrap();
    assert_eq!(detector.calculate_text_similarity("hello", "hello"), 1_000_000);
    // One of five characters differs: the similarity is 0.8 and no more.
    assert_eq!(detector.calculate_text_similarity("hello", "hallo"), 800_000);
    assert!(detector.calculate_text_similarity("hello", "world") < 500_000);
}

#[test]
fn test_text_similarity_calculation() {
    let detector = EventDetector::new().unwrap();
    assert_eq!(detector.calculate_text_similarity("hello", "hello"), 1_000_000);
    let similarity = detector.calculate_text_similarity("hello", "hallo");
    // One of five characters differs: the similarity is 0.8 and no more.
    assert!(similarity == 800_000 && similarity < 1_000_000);
    let similarity = detector.calculate_text_similarity("hello", "world");
    assert!(similarity < 500_000);
    assert_eq!(detector.calculate_text_similarity("", ""), 1_000_000);
    assert_eq!(detector.calculate_text_similarity("hello", ""), 0);
}
