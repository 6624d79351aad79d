use keyframe_indexer::geometry::BoundingBox;
use keyframe_indexer::ocr::{OCRBatch, OCRResult};

fn result(text: &str, roi: BoundingBox, language: &str, confidence: u32, processor: &str) -> OCRResult {
    OCRResult {
        frame_id: "frame_1".to_string(),
        roi,
        text: text.to_string(),
        language: language.to_string(),
        confidence,
        processed_at: 0,
        processor: processor.to_string(),
    }
}

#[test]
fn test_bounding_box_area() {
    let bbox = BoundingBox::new(10, 20, 100, 50);
    assert_eq!(bbox.area(), 5000);
}

#[test]
fn test_bounding_box_intersection() {
    let bbox1 = BoundingBox::new(0, 0, 100, 100);
    let bbox2 = BoundingBox::new(50, 50, 100, 100);
    let bbox3 = BoundingBox::new(200, 200, 100, 100);

    assert!(bbox1.intersects(&bbox2));
    assert!(!bbox1.intersects(&bbox3));
}

#[test]
fn ocr_data_test_bounding_box_iou() {
    let bbox1 = BoundingBox::new(0, 0, 100, 100);
    let bbox2 = BoundingBox::new(50, 50, 100, 100);

    let iou = bbox1.iou(&bbox2);
    assert!(iou > 0 && iou < 1_000_000);

    // Same bounding box should have IoU of 1.0
    let iou_same = bbox1.iou(&bbox1);
    assert!((iou_same as i64 - 1_000_000).abs() < 1000);
}

#[test]
fn event_detection_tests_test_bounding_box_iou() {
    let bbox1 = BoundingBox::new(0, 0, 100, 100);
    let bbox2 = BoundingBox::new(50, 50, 100, 100);
    let bbox3 = BoundingBox::new(200, 200, 100, 100);

    let iou = bbox1.iou(&bbox2);
    assert!(iou > 0 && iou < 1_000_000, "Overlapping boxes should have IoU between 0 and 1");

    let iou = bbox1.iou(&bbox3);
    assert_eq!(iou, 0, "Non-overlapping boxes should have IoU of 0");

    let iou = bbox1.iou(&bbox1);
    assert!((iou as i64 - 1_000_000).abs() < 1000, "Identical boxes should have IoU of 1");
}

#[test]
fn iou_exact_values() {
    let a = BoundingBox::new(0, 0, 100, 100);
    let b = BoundingBox::new(50, 50, 100, 100);
    // 2500 shared pixels of 17500 covered: one seventh, rounded down.
    assert_eq!(a.intersection_area(&b), 2500);
    assert_eq!(a.iou(&b), 142_857);
    assert_eq!(b.iou(&a), 142_857);
    assert_eq!(a.iou(&a), 1_000_000);
    // Boxes that only touch share no pixel.
    let touching = BoundingBox::new(100, 0, 10, 10);
    assert!(a.intersects(&touching));
    assert_eq!(a.iou(&touching), 0);
    // A box without area overlaps nothing, not even itself.
    let empty = BoundingBox::new(5, 5, 0, 10);
    assert_eq!(empty.iou(&empty), 0);
    assert_eq!(empty.iou(&a), 0);
    // The extremes of the coordinates do not overflow.
    let huge = BoundingBox::new(i32::MIN, i32::MIN, u32::MAX, u32::MAX);
    assert_eq!(huge.iou(&huge), 1_000_000);
    assert_eq!(huge.area(), (u32::MAX as u64) * (u32::MAX as u64));
    let far = BoundingBox::new(i32::MAX, i32::MAX, u32::MAX, u32::MAX);
    assert_eq!(huge.iou(&far), 0);
    let inner = BoundingBox::new(-10, -10, 20, 20);
    let outer = BoundingBox::new(-20, -20, 40, 40);
    assert_eq!(inner.iou(&outer), 250_000);
}

#[test]
fn centres_within_a_distance() {
    let a = BoundingBox::new(400, 250, 200, 30);
    let b = BoundingBox::new(350, 300, 300, 40);
    let c = BoundingBox::new(450, 360, 100, 30);
    assert!(a.centers_within(&b, 100));
    assert!(b.centers_within(&c, 100));
    assert!(!a.centers_within(&c, 100));
    // The centres of the first and the third box are exactly 110 apart.
    assert!(!a.centers_within(&c, 109));
    assert!(a.centers_within(&c, 110));
    assert!(a.centers_within(&c, 111));
    // Half pixels count: the centres are 0.5 apart.
    let p = BoundingBox::new(0, 0, 1, 0);
    let q = BoundingBox::new(0, 0, 2, 0);
    assert!(p.centers_within(&q, 1));
    assert!(!p.centers_within(&q, 0));
}

#[test]
fn test_ocr_batch_creation() {
    let results = vec![
        result("Hello World", BoundingBox::new(10, 10, 100, 20), "en-US", 950_000, "vision"),
        result("Test Text", BoundingBox::new(10, 40, 80, 20), "en-US", 870_000, "vision"),
    ];

    let batch = OCRBatch::new(results);
    assert_eq!(batch.text_region_count(), 2);
    assert!((batch.average_confidence() as i64 - 910_000).abs() < 10_000);
    assert_eq!(batch.average_confidence(), 910_000);
    assert!(!batch.batch_id.is_empty());
}

#[test]
fn test_confidence_filtering() {
    let results = vec![
        result("High confidence", BoundingBox::new(10, 10, 100, 20), "en-US", 950_000, "vision"),
        result("Low confidence", BoundingBox::new(10, 40, 80, 20), "en-US", 450_000, "tesseract"),
    ];

    let batch = OCRBatch::new(results);
    let high_confidence = batch.filter_by_confidence(800_000);
    assert_eq!(high_confidence.len(), 1);
    assert_eq!(high_confidence[0].text, "High confidence");
}

#[test]
fn empty_batch_has_average_zero() {
    let batch = OCRBatch::new(Vec::new());
    assert_eq!(batch.text_region_count(), 0);
    assert_eq!(batch.average_confidence(), 0);
    assert!(batch.filter_by_confidence(0).is_empty());
    assert!(batch.group_by_language().is_empty());
}

#[test]
fn batches_get_different_identifiers() {
    let a = OCRBatch::new(Vec::new());
    let b = OCRBatch::new(Vec::new());
    assert_ne!(a.batch_id, b.batch_id);
    assert_eq!(a.batch_id.len(), 36);
}

#[test]
fn results_are_grouped_by_language_in_order() {
    let results = vec![
        result("eins", BoundingBox::new(0, 0, 1, 1), "de", 900_000, "vision"),
        result("one", BoundingBox::new(0, 0, 1, 1), "en", 900_000, "vision"),
        result("zwei", BoundingBox::new(0, 0, 1, 1), "de", 800_000, "vision"),
        result("un", BoundingBox::new(0, 0, 1, 1), "fr", 700_000, "vision"),
        result("two", BoundingBox::new(0, 0, 1, 1), "en", 600_000, "vision"),
    ];
    let groups = OCRBatch::new(results).group_by_language();
    let shape: Vec<(String, Vec<String>)> = groups
        .iter()
        .map(|g| (g.language.clone(), g.results.iter().map(|r| r.text.clone()).collect()))
        .collect();
    assert_eq!(
        shape,
        vec![
            ("de".to_string(), vec!["eins".to_string(), "zwei".to_string()]),
            ("en".to_string(), vec!["one".to_string(), "two".to_string()]),
            ("fr".to_string(), vec!["un".to_string()]),
        ]
    );
}
