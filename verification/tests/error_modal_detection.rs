use keyframe_indexer::error_modal::{
    analyze_layout, extract_title, find_matches, group_by_spatial_proximity, ErrorModalDetectionConfig,
    ErrorModalDetector, ErrorModalType, PatternFamily, SeverityLevel,
};
use keyframe_indexer::geometry::BoundingBox;
use keyframe_indexer::ocr::OCRResult;

fn ocr(text: &str, roi: BoundingBox, confidence: u32) -> OCRResult {
    OCRResult {
        frame_id: "test_frame".to_string(),
        roi,
        text: text.to_string(),
        language: "en".to_string(),
        confidence,
        processed_at: 0,
        processor: "vision".to_string(),
    }
}

#[test]
fn test_error_pattern_matching() {
    for text in ["Fatal error occurred", "Connection failed", "Access denied", "Invalid input format"] {
        let found = find_matches(text);
        assert!(found.iter().any(|p| matches!(
            p.family,
            PatternFamily::CriticalError
                | PatternFamily::NetworkError
                | PatternFamily::AuthError
                | PatternFamily::ValidationError
                | PatternFamily::ApplicationError
                | PatternFamily::Warning
        )));
    }
}

#[test]
fn test_modal_pattern_matching() {
    for text in [
        "Are you sure you want to delete?",
        "Save file as",
        "Settings and preferences",
        "Loading... 50%",
    ] {
        let found = find_matches(text);
        assert!(found.iter().any(|p| matches!(
            p.family,
            PatternFamily::ConfirmationDialog
                | PatternFamily::FileDialog
                | PatternFamily::SettingsDialog
                | PatternFamily::ProgressDialog
                | PatternFamily::InfoDialog
        )));
    }
}

#[test]
fn test_layout_analysis() {
    let config = ErrorModalDetectionConfig::default();
    let centered_dialog = BoundingBox { x: 300, y: 200, width: 400, height: 200 };
    let analysis = analyze_layout(&config, &centered_dialog, 1000, 600);
    assert!(analysis.is_dialog_layout);
    assert!(analysis.is_centered);
    assert!(analysis.layout_confidence > 600_000);
    assert_eq!(analysis.layout_confidence, 1_000_000);
    assert_eq!(analysis.center_x_ratio, 500_000);
    assert_eq!(analysis.center_y_ratio, 500_000);
}

#[test]
fn layout_score_counts_each_criterion() {
    let config = ErrorModalDetectionConfig::default();
    // Too flat for size and aspect, but centred and with a margin.
    let strip = BoundingBox { x: 400, y: 250, width: 200, height: 30 };
    let a = analyze_layout(&config, &strip, 1000, 600);
    assert_eq!(a.layout_confidence, 400_000);
    assert!(!a.is_dialog_layout);
    assert!(a.is_centered);
    // In the corner: only the aspect ratio counts.
    let corner = BoundingBox { x: 0, y: 0, width: 100, height: 100 };
    let c = analyze_layout(&config, &corner, 1000, 600);
    assert_eq!(c.layout_confidence, 200_000);
    assert!(!c.is_centered);
    assert_eq!(c.center_x_ratio, 50_000);
}

#[test]
fn test_dialog_classification() {
    let detector = ErrorModalDetector::new().unwrap();
    assert_eq!(
        detector.classify_dialog_by_content("Save file as document.txt"),
        ErrorModalType::FileDialog
    );
    assert_eq!(
        detector.classify_dialog_by_content("Are you sure you want to delete this item?"),
        ErrorModalType::ConfirmationDialog
    );
    assert_eq!(
        detector.classify_dialog_by_content("Error: Connection failed"),
        ErrorModalType::ApplicationError
    );
}

#[test]
fn test_severity_determination() {
    let detector = ErrorModalDetector::new().unwrap();
    assert_eq!(
        detector.determine_severity_by_content("Critical system failure"),
        SeverityLevel::Critical
    );
    assert_eq!(
        detector.determine_severity_by_content("Error: File not found"),
        SeverityLevel::High
    );
    assert_eq!(
        detector.determine_severity_by_content("Warning: Disk space low"),
        SeverityLevel::Medium
    );
    assert_eq!(
        detector.determine_severity_by_content("Information: Task completed"),
        SeverityLevel::Info
    );
    assert_eq!(
        detector.determine_severity_by_content("Notice: Update available"),
        SeverityLevel::Low
    );
}

#[test]
fn fatal_error_text_gives_one_critical_error() {
    let detector = ErrorModalDetector::new().unwrap();
    let results = vec![ocr(
        "Fatal error: System crash detected",
        BoundingBox { x: 100, y: 100, width: 400, height: 50 },
        950_000,
    )];
    let events = detector.detect_errors_and_modals("test_frame", &results, 0, 1000, 600).unwrap();
    assert_eq!(events.len(), 1);
    let e = &events[0];
    assert!(e.event_type.is_error());
    assert_eq!(e.severity, SeverityLevel::Critical);
    assert_eq!(e.message, "Fatal error: System crash detected");
    assert_eq!(e.title, "Fatal error: System crash detected");
    assert_eq!(e.frame_id, "test_frame");
    // Two patterns match, of weights 0.9 and 0.6; the one of weight 0.9 gives the kind,
    // and their mean gives the confidence: 0.7 * 0.75 + 0.3 * 0.95.
    assert_eq!(e.event_type, ErrorModalType::SystemError);
    assert_eq!(e.pattern_matches.len(), 2);
    assert_eq!(e.pattern_matches[0].pattern_type, "critical_error");
    assert_eq!(e.pattern_matches[0].confidence_weight, 900_000);
    assert_eq!(e.pattern_matches[0].description, "Critical system errors");
    assert_eq!(e.pattern_matches[1].pattern_type, "application_error");
    assert_eq!(e.confidence, 810_000);
    assert!(e.confidence <= 1_000_000);
    assert!(!e.id.is_empty());
    let count = e.metadata.entries.iter().find(|(k, _)| k == "pattern_count").unwrap();
    assert_eq!(count.1, "2");
    let width = e.metadata.entries.iter().find(|(k, _)| k == "screen_width").unwrap();
    assert_eq!(width.1, "1000");
}

#[test]
fn centered_group_of_three_regions_is_a_dialog() {
    let detector = ErrorModalDetector::new().unwrap();
    let results = vec![
        ocr("Confirm Action", BoundingBox { x: 400, y: 250, width: 200, height: 30 }, 900_000),
        ocr(
            "Are you sure you want to proceed?",
            BoundingBox { x: 350, y: 300, width: 300, height: 40 },
            850_000,
        ),
        ocr("OK    Cancel", BoundingBox { x: 450, y: 360, width: 100, height: 30 }, 880_000),
    ];
    let groups = group_by_spatial_proximity(&results);
    assert_eq!(groups, vec![vec![0usize, 1, 2]]);
    let events = detector.detect_errors_and_modals("test_frame", &results, 0, 1000, 600).unwrap();
    let dialogs: Vec<_> = events
        .iter()
        .filter(|e| {
            !e.event_type.is_error()
                && e.layout_analysis.map(|l| l.is_dialog_layout && l.is_centered).unwrap_or(false)
        })
        .collect();
    assert!(!dialogs.is_empty());
    let d = dialogs[0];
    assert_eq!(d.roi, BoundingBox { x: 350, y: 250, width: 300, height: 140 });
    assert_eq!(d.message, "Confirm Action Are you sure you want to proceed? OK    Cancel");
    assert_eq!(d.event_type, ErrorModalType::ConfirmationDialog);
    assert_eq!(d.confidence, 1_000_000);
}

#[test]
fn low_ocr_confidence_regions_are_ignored() {
    let detector = ErrorModalDetector::new().unwrap();
    let results = vec![ocr(
        "Fatal error: System crash detected",
        BoundingBox { x: 100, y: 100, width: 400, height: 50 },
        500_000,
    )];
    let events = detector.detect_errors_and_modals("f", &results, 0, 1000, 600).unwrap();
    assert!(events.is_empty());
}

#[test]
fn title_is_the_trimmed_first_line() {
    assert_eq!(extract_title("  Hello world \r\nsecond line"), "Hello world");
    assert_eq!(extract_title(""), "");
    let long = format!("\n{}", "x".repeat(60));
    assert_eq!(extract_title(&long), format!("\n{}...", "x".repeat(46)));
    assert_eq!(extract_title("\nshort"), "\nshort");
}

#[test]
fn type_and_severity_names() {
    assert_eq!(ErrorModalType::SystemError.to_string(), "system_error");
    assert_eq!(ErrorModalType::CustomDialog.to_string(), "custom_dialog");
    assert_eq!(SeverityLevel::Critical.to_string(), "critical");
    assert_eq!(SeverityLevel::Info.to_string(), "info");
}

fn error_test_cases() -> Vec<(&'static str, OCRResult, ErrorModalType, SeverityLevel)> {
    vec![
        (
            "Fatal system crash",
            ocr(
                "Fatal error: System crash detected",
                BoundingBox { x: 100, y: 100, width: 400, height: 50 },
                900_000,
            ),
            ErrorModalType::SystemError,
            SeverityLevel::Critical,
        ),
        (
            "Segmentation fault",
            ocr(
                "Segmentation fault in process 1234",
                BoundingBox { x: 150, y: 200, width: 350, height: 40 },
                950_000,
            ),
            ErrorModalType::SystemError,
            SeverityLevel::Critical,
        ),
        (
            "Connection failed",
            ocr(
                "Connection failed: Unable to reach server",
                BoundingBox { x: 200, y: 150, width: 300, height: 60 },
                850_000,
            ),
            ErrorModalType::NetworkError,
            SeverityLevel::High,
        ),
        (
            "DNS error",
            ocr("DNS error: Host not found", BoundingBox { x: 180, y: 180, width: 280, height: 45 }, 800_000),
            ErrorModalType::NetworkError,
            SeverityLevel::High,
        ),
        (
            "Access denied",
            ocr(
                "Access denied: Insufficient privileges",
                BoundingBox { x: 120, y: 120, width: 320, height: 50 },
                880_000,
            ),
            ErrorModalType::AuthError,
            SeverityLevel::High,
        ),
        (
            "Login failed",
            ocr(
                "Login failed: Incorrect password",
                BoundingBox { x: 160, y: 160, width: 300, height: 55 },
                900_000,
            ),
            ErrorModalType::AuthError,
            SeverityLevel::High,
        ),
        (
            "Invalid input",
            ocr(
                "Invalid input format: Please enter a valid email",
                BoundingBox { x: 140, y: 300, width: 360, height: 40 },
                750_000,
            ),
            ErrorModalType::ValidationError,
            SeverityLevel::Medium,
        ),
        (
            "Required field",
            ocr(
                "Required field: This field cannot be empty",
                BoundingBox { x: 130, y: 350, width: 340, height: 35 },
                820_000,
            ),
            ErrorModalType::ValidationError,
            SeverityLevel::Medium,
        ),
        (
            "Warning message",
            ocr(
                "Warning: Disk space is running low",
                BoundingBox { x: 170, y: 250, width: 290, height: 45 },
                780_000,
            ),
            ErrorModalType::Warning,
            SeverityLevel::Medium,
        ),
    ]
}

fn modal_test_cases() -> Vec<(&'static str, OCRResult, ErrorModalType, SeverityLevel)> {
    vec![
        (
            "Confirmation dialog",
            ocr(
                "Are you sure you want to delete this file?",
                BoundingBox { x: 300, y: 200, width: 400, height: 100 },
                900_000,
            ),
            ErrorModalType::ConfirmationDialog,
            SeverityLevel::Info,
        ),
        (
            "Dialog buttons",
            ocr("Yes    No    Cancel", BoundingBox { x: 350, y: 280, width: 200, height: 40 }, 850_000),
            ErrorModalType::ConfirmationDialog,
            SeverityLevel::Info,
        ),
        (
            "Save file dialog",
            ocr(
                "Save file as: document.txt",
                BoundingBox { x: 250, y: 150, width: 500, height: 300 },
                880_000,
            ),
            ErrorModalType::FileDialog,
            SeverityLevel::Info,
        ),
        (
            "Open file dialog",
            ocr("Choose file to open", BoundingBox { x: 200, y: 100, width: 600, height: 400 }, 920_000),
            ErrorModalType::FileDialog,
            SeverityLevel::Info,
        ),
        (
            "Settings dialog",
            ocr(
                "Settings and Preferences",
                BoundingBox { x: 300, y: 100, width: 400, height: 500 },
                900_000,
            ),
            ErrorModalType::SettingsDialog,
            SeverityLevel::Info,
        ),
        (
            "Progress dialog",
            ocr(
                "Loading... 45% completed",
                BoundingBox { x: 350, y: 250, width: 300, height: 80 },
                870_000,
            ),
            ErrorModalType::ProgressDialog,
            SeverityLevel::Info,
        ),
        (
            "Info dialog",
            ocr(
                "Information: Task completed successfully",
                BoundingBox { x: 280, y: 200, width: 440, height: 120 },
                830_000,
            ),
            ErrorModalType::InfoDialog,
            SeverityLevel::Info,
        ),
    ]
}

#[test]
fn test_error_detection_patterns() {
    let detector = ErrorModalDetector::new().unwrap();
    for (test_name, ocr_result, expected_type, expected_severity) in error_test_cases() {
        let events =
            detector.detect_errors_and_modals("test_frame", &vec![ocr_result], 0, 1000, 600).unwrap();
        assert!(!events.is_empty(), "Should detect error for: {}", test_name);
        let event = &events[0];
        assert_eq!(event.event_type, expected_type, "Wrong event type for: {}", test_name);
        assert_eq!(event.severity, expected_severity, "Wrong severity for: {}", test_name);
        assert!(event.confidence >= 600_000, "Confidence too low for: {}", test_name);
    }
}

#[test]
fn test_modal_detection_patterns() {
    let detector = ErrorModalDetector::new().unwrap();
    for (test_name, ocr_result, expected_type, expected_severity) in modal_test_cases() {
        let events =
            detector.detect_errors_and_modals("test_frame", &vec![ocr_result], 0, 1000, 600).unwrap();
        assert!(!events.is_empty(), "Should detect modal for: {}", test_name);
        let event = &events[0];
        assert_eq!(event.event_type, expected_type, "Wrong event type for: {}", test_name);
        assert_eq!(event.severity, expected_severity, "Wrong severity for: {}", test_name);
        assert!(event.confidence >= 600_000, "Confidence too low for: {}", test_name);
    }
}

#[test]
fn error_modal_tests_test_confidence_scoring() {
    let detector = ErrorModalDetector::new().unwrap();

    // High confidence case
    let high = ocr(
        "Fatal error: System crash detected",
        BoundingBox { x: 100, y: 100, width: 400, height: 50 },
        950_000,
    );
    let events = detector.detect_errors_and_modals("test_frame", &vec![high], 0, 1000, 600).unwrap();
    assert!(!events.is_empty());
    assert!(events[0].confidence >= 800_000, "High confidence case should have high confidence score");

    // Low confidence case
    let low = ocr("maybe error", BoundingBox { x: 100, y: 100, width: 100, height: 20 }, 500_000);
    let events = detector.detect_errors_and_modals("test_frame", &vec![low], 0, 1000, 600).unwrap();
    if !events.is_empty() {
        assert!(events[0].confidence < 700_000, "Low confidence case should have low confidence score");
    }
}

#[test]
fn patterns_match_what_they_should() {
    let detector = ErrorModalDetector::new().unwrap();
    let cases = [
        ("Fatal error occurred", true),
        ("Connection failed to server", true),
        ("Access denied by system", true),
        ("Are you sure you want to delete?", true),
        ("Save file as document.txt", true),
        ("Regular text content", false),
        ("Welcome to the application", false),
    ];
    for (text, should_match) in cases {
        let r = ocr(text, BoundingBox { x: 100, y: 100, width: 300, height: 50 }, 900_000);
        let events = detector.detect_errors_and_modals("test_frame", &vec![r], 0, 1000, 600).unwrap();
        if should_match {
            assert!(!events.is_empty(), "'{}'", text);
        } else {
            assert!(events.is_empty() || events[0].confidence < 600_000, "'{}'", text);
        }
    }
}

#[test]
fn test_severity_classification() {
    let detector = ErrorModalDetector::new().unwrap();
    let severity_test_cases = vec![
        ("Critical system failure", SeverityLevel::Critical),
        ("Fatal error in application", SeverityLevel::Critical),
        ("Error: File not found", SeverityLevel::High),
        ("Network connection failed", SeverityLevel::High),
        ("Warning: Low disk space", SeverityLevel::Medium),
        ("Invalid input format", SeverityLevel::Medium),
        ("Notice: Update available", SeverityLevel::Low),
        ("Information: Task completed", SeverityLevel::Info),
    ];
    for (text, expected_severity) in severity_test_cases {
        let r = ocr(text, BoundingBox { x: 100, y: 100, width: 300, height: 50 }, 900_000);
        let events = detector.detect_errors_and_modals("test_frame", &vec![r], 0, 1000, 600).unwrap();
        if !events.is_empty() {
            assert_eq!(events[0].severity, expected_severity, "Wrong severity for: '{}'", text);
        }
    }
}

#[test]
fn test_configuration_thresholds() {
    let mut config = ErrorModalDetectionConfig::default();
    config.min_error_confidence = 800_000;
    config.min_modal_confidence = 700_000;
    config.min_ocr_confidence = 800_000;

    let detector = ErrorModalDetector::with_config(config).unwrap();

    let low = ocr("Fatal error occurred", BoundingBox { x: 100, y: 100, width: 300, height: 50 }, 600_000);
    let events = detector.detect_errors_and_modals("test_frame", &vec![low], 0, 1000, 600).unwrap();
    assert!(events.is_empty(), "Should not detect with low OCR confidence");

    let high = ocr("Fatal error occurred", BoundingBox { x: 100, y: 100, width: 300, height: 50 }, 900_000);
    let events = detector.detect_errors_and_modals("test_frame", &vec![high], 0, 1000, 600).unwrap();
    assert!(!events.is_empty(), "Should detect with high OCR confidence");
}

#[test]
fn events_under_the_threshold_of_their_kind_are_dropped() {
    let mut config = ErrorModalDetectionConfig::default();
    config.min_error_confidence = 950_000;
    let strict = ErrorModalDetector::with_config(config).unwrap();
    // Only a pattern of critical errors matches, so the threshold of errors holds:
    // 0.7 * 0.9 + 0.3 * 0.9 = 0.9.
    let fatal = ocr("Fatal", BoundingBox { x: 0, y: 0, width: 10, height: 10 }, 900_000);
    assert!(strict.analyze_text_for_errors_modals("f", &fatal, 0, 1000, 600).is_none());
    // The general pattern of errors matches last, so the other threshold holds, and
    // the mean of the weights 0.9 and 0.6 counts: 0.7 * 0.75 + 0.3 * 0.9 = 0.795.
    let both = ocr("Fatal error occurred", BoundingBox { x: 0, y: 0, width: 10, height: 10 }, 900_000);
    let e = strict.analyze_text_for_errors_modals("f", &both, 0, 1000, 600).unwrap();
    assert_eq!(e.event_type, ErrorModalType::SystemError);
    assert_eq!(e.confidence, 795_000);
    assert!(e.layout_analysis.is_none());
    // A warning needs the other threshold only: 0.7 * 0.7 + 0.3 * 0.9 = 0.76.
    let warning = ocr("Caution", BoundingBox { x: 0, y: 0, width: 10, height: 10 }, 900_000);
    let e = strict.analyze_text_for_errors_modals("f", &warning, 0, 1000, 600).unwrap();
    assert_eq!(e.event_type, ErrorModalType::Warning);
    assert_eq!(e.severity, SeverityLevel::Medium);
    assert_eq!(e.confidence, 760_000);
}

#[test]
fn assessment_of_given_matches() {
    let detector = ErrorModalDetector::new().unwrap();
    let r = ocr("whatever", BoundingBox { x: 0, y: 0, width: 10, height: 10 }, 1_000_000);
    let patterns = keyframe_indexer::error_modal::modal_patterns();
    // Of two patterns of the same weight the later decides.
    let both = vec![patterns[7], patterns[8]];
    let e = detector
        .assess_matches(&both, &r, "whatever", "f", 7, 1000, 600, "id-1".to_string())
        .unwrap();
    assert_eq!(e.id, "id-1");
    assert_eq!(e.timestamp, 7);
    assert_eq!(e.event_type, ErrorModalType::InfoDialog);
    assert_eq!(e.confidence, 790_000);
    let swapped = vec![patterns[8], patterns[7]];
    let e = detector
        .assess_matches(&swapped, &r, "whatever", "f", 7, 1000, 600, "id-2".to_string())
        .unwrap();
    assert_eq!(e.event_type, ErrorModalType::ProgressDialog);
    // No match, no event.
    assert!(detector
        .assess_matches(&Vec::new(), &r, "whatever", "f", 7, 1000, 600, "id-3".to_string())
        .is_none());
    // The words of the text override the severity of the family.
    let e = detector
        .assess_matches(&both, &r, "attention please", "f", 7, 1000, 600, "id-4".to_string())
        .unwrap();
    assert_eq!(e.severity, SeverityLevel::Low);
}

#[test]
fn catalogue_has_its_entries() {
    assert_eq!(keyframe_indexer::error_modal::error_patterns().len(), 12);
    assert_eq!(keyframe_indexer::error_modal::modal_patterns().len(), 10);
    assert_eq!(keyframe_indexer::error_modal::system_alert_patterns().len(), 5);
    let found = find_matches("SECURITY WARNING: update available");
    let families: Vec<_> = found.iter().map(|p| p.family).collect();
    assert_eq!(
        families,
        vec![PatternFamily::Warning, PatternFamily::SystemAlert, PatternFamily::AppAlert]
    );
}

#[test]
fn layout_detection_can_be_switched_off() {
    let mut config = ErrorModalDetectionConfig::default();
    config.enable_layout_detection = false;
    let detector = ErrorModalDetector::with_config(config).unwrap();
    let results = vec![
        ocr("Confirm Action", BoundingBox { x: 400, y: 250, width: 200, height: 30 }, 900_000),
        ocr("plain", BoundingBox { x: 350, y: 300, width: 300, height: 40 }, 850_000),
        ocr("words", BoundingBox { x: 450, y: 360, width: 100, height: 30 }, 880_000),
    ];
    let events = detector.detect_errors_and_modals("f", &results, 0, 1000, 600).unwrap();
    assert_eq!(events.len(), 1);
    assert!(events[0].layout_analysis.is_none());
}

#[test]
fn groups_need_two_regions_and_a_dialog_layout() {
    let detector = ErrorModalDetector::new().unwrap();
    // Far apart: three groups of one region each.
    let results = vec![
        ocr("alpha", BoundingBox { x: 200, y: 100, width: 100, height: 25 }, 900_000),
        ocr("beta", BoundingBox { x: 220, y: 150, width: 560, height: 300 }, 800_000),
        ocr("gamma", BoundingBox { x: 650, y: 480, width: 120, height: 30 }, 850_000),
    ];
    assert_eq!(group_by_spatial_proximity(&results), vec![vec![0usize], vec![1], vec![2]]);
    assert!(detector.detect_dialog_layouts("f", &results, 0, 1000, 600).is_empty());
    // Near each other but in a corner: a group, but no dialog.
    let corner = vec![
        ocr("alpha", BoundingBox { x: 0, y: 0, width: 40, height: 10 }, 900_000),
        ocr("beta", BoundingBox { x: 0, y: 12, width: 40, height: 10 }, 900_000),
    ];
    assert_eq!(group_by_spatial_proximity(&corner), vec![vec![0usize, 1]]);
    assert!(detector.detect_dialog_layouts("f", &corner, 0, 1000, 600).is_empty());
}

fn layout_test_cases() -> Vec<(&'static str, Vec<OCRResult>, bool, u32)> {
    vec![
        (
            "Centered dialog",
            vec![
                ocr("Confirm Action", BoundingBox { x: 400, y: 250, width: 200, height: 30 }, 900_000),
                ocr(
                    "Are you sure you want to proceed?",
                    BoundingBox { x: 350, y: 300, width: 300, height: 40 },
                    850_000,
                ),
                ocr("OK    Cancel", BoundingBox { x: 450, y: 360, width: 100, height: 30 }, 880_000),
            ],
            true,
            800_000,
        ),
        (
            "File dialog",
            vec![
                ocr("Open File", BoundingBox { x: 200, y: 100, width: 100, height: 25 }, 900_000),
                ocr("Documents folder", BoundingBox { x: 220, y: 150, width: 560, height: 300 }, 800_000),
                ocr("Open    Cancel", BoundingBox { x: 650, y: 480, width: 120, height: 30 }, 850_000),
            ],
            true,
            700_000,
        ),
        (
            "Full screen content",
            vec![ocr(
                "Main Application Window",
                BoundingBox { x: 0, y: 0, width: 1000, height: 600 },
                900_000,
            )],
            false,
            300_000,
        ),
        (
            "Small tooltip",
            vec![ocr("Tooltip", BoundingBox { x: 400, y: 300, width: 80, height: 20 }, 800_000)],
            false,
            400_000,
        ),
    ]
}

#[test]
fn test_layout_based_detection() {
    let detector = ErrorModalDetector::new().unwrap();
    for (test_name, ocr_results, should_detect, expected_confidence) in layout_test_cases() {
        let events =
            detector.detect_errors_and_modals("test_frame", &ocr_results, 0, 1000, 600).unwrap();
        if should_detect {
            assert!(!events.is_empty(), "Should detect dialog layout for: {}", test_name);
            let has_layout_analysis = events.iter().any(|e| e.layout_analysis.is_some());
            if has_layout_analysis {
                let event_with_layout = events.iter().find(|e| e.layout_analysis.is_some()).unwrap();
                let layout = event_with_layout.layout_analysis.as_ref().unwrap();
                assert!(layout.is_dialog_layout, "Should be detected as dialog layout: {}", test_name);
                assert!(
                    layout.layout_confidence as u64 * 10 >= expected_confidence as u64 * 8,
                    "Layout confidence too low for: {}",
                    test_name
                );
            }
        } else if !events.is_empty() {
            let max_confidence = events.iter().map(|e| e.confidence).max().unwrap();
            assert!(
                max_confidence < 700_000,
                "Confidence too high for non-dialog: {} (got {})",
                test_name,
                max_confidence
            );
        }
    }
}

#[test]
fn test_pattern_matching_accuracy() {
    let detector = ErrorModalDetector::new().unwrap();
    let test_patterns = vec![
        ("Fatal error occurred", true, "Should match critical error pattern"),
        ("Connection failed to server", true, "Should match network error pattern"),
        ("Access denied by system", true, "Should match auth error pattern"),
        ("Invalid email format", true, "Should match validation error pattern"),
        ("Are you sure you want to delete?", true, "Should match confirmation dialog pattern"),
        ("Save file as document.txt", true, "Should match file dialog pattern"),
        ("Regular text content", false, "Should not match any error pattern"),
        ("Welcome to the application", false, "Should not match any error pattern"),
    ];
    for (text, should_match, description) in test_patterns {
        let ocr_result = ocr(text, BoundingBox { x: 100, y: 100, width: 300, height: 50 }, 900_000);
        let events =
            detector.detect_errors_and_modals("test_frame", &vec![ocr_result], 0, 1000, 600).unwrap();
        if should_match {
            assert!(!events.is_empty(), "{}: '{}'", description, text);
        } else {
            assert!(
                events.is_empty() || events[0].confidence < 600_000,
                "{}: '{}' (got {} events)",
                description,
                text,
                events.len()
            );
        }
    }
}

#[test]
fn layout_scores_of_given_boxes() {
    let config = ErrorModalDetectionConfig::default();
    let a = analyze_layout(&config, &BoundingBox { x: 300, y: 200, width: 400, height: 200 }, 1000, 600);
    assert_eq!(a.layout_confidence, 1_000_000);
    assert!(a.is_dialog_layout && a.is_centered);
    let full = analyze_layout(&config, &BoundingBox { x: 0, y: 0, width: 1000, height: 600 }, 1000, 600);
    assert_eq!(full.layout_confidence, 500_000);
    assert!(!full.is_dialog_layout);
    let tip = analyze_layout(&config, &BoundingBox { x: 400, y: 300, width: 80, height: 20 }, 1000, 600);
    assert_eq!(tip.layout_confidence, 400_000);
    // Exactly 50 pixels from the left edge are margin enough.
    let edge = analyze_layout(&config, &BoundingBox { x: 50, y: 100, width: 300, height: 200 }, 1000, 600);
    assert_eq!(edge.layout_confidence, 700_000);
    assert!(edge.is_dialog_layout);
    let near = analyze_layout(&config, &BoundingBox { x: 49, y: 100, width: 300, height: 200 }, 1000, 600);
    assert_eq!(near.layout_confidence, 600_000);
    let right = analyze_layout(&config, &BoundingBox { x: 650, y: 350, width: 300, height: 200 }, 1000, 600);
    assert_eq!(right.layout_confidence, 700_000);
    let beyond = analyze_layout(&config, &BoundingBox { x: 651, y: 350, width: 300, height: 200 }, 1000, 600);
    assert_eq!(beyond.layout_confidence, 600_000);
}
