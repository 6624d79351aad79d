use keyframe_indexer::columns::{EventColumns, FrameColumns, OcrColumns};
use keyframe_indexer::config::{ConfigFault, IndexerConfig};
use keyframe_indexer::csv_writer::{format_csv, parse_csv, CsvWriter};
use keyframe_indexer::error::IndexerError;
use keyframe_indexer::encryption::EncryptionManager;
use keyframe_indexer::events::{DetectedEvent, EventType};
use keyframe_indexer::file_watcher::FileWatcher;
use keyframe_indexer::geometry::BoundingBox;
use keyframe_indexer::keyframe_extractor::{KeyframeExtractor, Sampler, SamplerAction};
use keyframe_indexer::keyvalue::Metadata;
use keyframe_indexer::metadata_collector::{short_hash_of_samples, FrameMetadata, MetadataCollector};
use keyframe_indexer::ocr::{OCRBatch, OCRResult};
use keyframe_indexer::scene::GrayFrame;
use keyframe_indexer::storage::{
    batch_file_name, event_schema, frame_schema, ocr_schema, order_events, read_notes,
    region_schema, stored_notes, stored_text, temporary_file_name, BatchBuffer, ColumnType, Compression, EventOrder, EventParquetWriter,
    OCRParquetWriter, ParquetWriter,
};

fn event(id: &str, kind: EventType, target: &str, timestamp: i64, confidence: u32) -> DetectedEvent {
    DetectedEvent {
        id: id.to_string(),
        timestamp,
        event_type: kind,
        target: target.to_string(),
        value_from: None,
        value_to: None,
        confidence,
        evidence_frames: vec!["f".to_string()],
        metadata: Metadata::new(),
    }
}

fn ocr(frame_id: &str, text: &str, language: &str, confidence: u32) -> OCRResult {
    OCRResult {
        frame_id: frame_id.to_string(),
        roi: BoundingBox::new(0, 0, 1, 1),
        text: text.to_string(),
        language: language.to_string(),
        confidence,
        processed_at: 0,
        processor: "vision".to_string(),
    }
}

fn row(ts_ns: i64, segment_id: &str, app_name: &str) -> FrameMetadata {
    FrameMetadata {
        ts_ns,
        monitor_id: 1,
        segment_id: segment_id.to_string(),
        path: "/path/to/frame1.png".to_string(),
        phash16: 12345,
        entropy: 5_500_000,
        app_name: app_name.to_string(),
        win_title: "Test Window".to_string(),
        width: 1920,
        height: 1080,
    }
}

fn ids(events: &[DetectedEvent]) -> Vec<&str> {
    events.iter().map(|e| e.id.as_str()).collect()
}

fn sample() -> Vec<DetectedEvent> {
    vec![
        event("a", EventType::FieldChange, "field_1", 30, 700_000),
        event("b", EventType::ErrorDisplay, "error_dialog", 10, 900_000),
        event("c", EventType::FieldChange, "field_2", 20, 900_000),
        event("d", EventType::Navigation, "field_1", 30, 0),
        event("e", EventType::FieldChange, "field_1", 30, 650_000),
    ]
}

#[test]
fn test_is_video_file() {
    let video_extensions = vec!["mp4".to_string(), "mov".to_string()];
    assert!(FileWatcher::is_video_file("test.mp4", &video_extensions));
    assert!(FileWatcher::is_video_file("test.MP4", &video_extensions));
    assert!(FileWatcher::is_video_file("test.mov", &video_extensions));
    assert!(!FileWatcher::is_video_file("test.txt", &video_extensions));
    assert!(!FileWatcher::is_video_file("test", &video_extensions));
}

#[test]
fn video_file_names() {
    let extensions = vec!["MkV".to_string(), "".to_string()];
    assert!(FileWatcher::is_video_file("a.b.mkv", &extensions));
    assert!(FileWatcher::is_video_file("clip.", &extensions));
    assert!(!FileWatcher::is_video_file(".mkv", &extensions));
    assert!(!FileWatcher::is_video_file("mkv", &extensions));
    assert!(!FileWatcher::is_video_file("", &extensions));
    assert!(!FileWatcher::is_video_file("clip.mkv ", &extensions));
    assert!(!FileWatcher::is_video_file("clip.mkv", &Vec::new()));
}

#[test]
fn test_video_extension_management() {
    let mut watcher = FileWatcher::new("/watched");
    assert_eq!(watcher.watch_dir, "/watched");
    assert_eq!(watcher.video_extensions, vec!["mp4", "mov", "avi", "mkv", "m4v", "webm"]);

    watcher.add_video_extension("flv".to_string());
    assert!(watcher.video_extensions.contains(&"flv".to_string()));

    let initial_len = watcher.video_extensions.len();
    watcher.add_video_extension("mp4".to_string());
    assert_eq!(watcher.video_extensions.len(), initial_len);

    let new_extensions = vec!["webm".to_string(), "ogv".to_string()];
    watcher.set_video_extensions(new_extensions.clone());
    assert_eq!(watcher.video_extensions, new_extensions);
}

#[test]
fn files_are_complete_when_their_size_has_settled() {
    assert!(!FileWatcher::is_file_complete(None, None));
    assert!(!FileWatcher::is_file_complete(Some(0), Some(0)));
    assert!(!FileWatcher::is_file_complete(Some(10), None));
    assert!(!FileWatcher::is_file_complete(None, Some(10)));
    assert!(!FileWatcher::is_file_complete(Some(10), Some(11)));
    assert!(FileWatcher::is_file_complete(Some(10), Some(10)));
}

#[test]
fn test_segment_id_generation() {
    let extractor = KeyframeExtractor::new(1000).unwrap();
    let segment_id = extractor.generate_segment_id("test_video", 1_700_000_000);
    assert!(segment_id.starts_with("test_video_"));
    assert_eq!(segment_id, "test_video_1700000000");
    assert_eq!(extractor.generate_segment_id("", -5), "_-5");
}

#[test]
fn every_nth_frame_is_a_keyframe() {
    let mut extractor = KeyframeExtractor::new(1500).unwrap();
    // 30 frames per second at 1.5 per second: every twentieth frame.
    assert_eq!(extractor.frame_interval(30, 1), Some(20));
    // 29.97 frames per second.
    assert_eq!(extractor.frame_interval(30000, 1001), Some(20));
    // Halves are rounded upwards: 2.25 / 1.5 = 1.5.
    assert_eq!(extractor.frame_interval(9, 4), Some(2));
    assert_eq!(extractor.frame_interval(1, 1), Some(1));
    // A source that is slower than half the extraction rate.
    assert_eq!(extractor.frame_interval(74, 100), None);
    assert_eq!(extractor.frame_interval(75, 100), Some(1));
    assert_eq!(extractor.frame_interval(30, 0), None);
    assert_eq!(extractor.frame_interval(u32::MAX, 1), Some(2_863_311_530));
    extractor.set_extraction_rate(0);
    assert_eq!(extractor.frame_interval(30, 1), None);
    assert!(KeyframeExtractor::should_extract(0, 20));
    assert!(!KeyframeExtractor::should_extract(19, 20));
    assert!(KeyframeExtractor::should_extract(40, 20));
    assert!(KeyframeExtractor::should_extract(7, 1));
}

#[test]
fn frames_are_timed_and_named() {
    let extractor = KeyframeExtractor::new(1500).unwrap();
    assert_eq!(extractor.timestamp_ns(0), 0);
    assert_eq!(extractor.timestamp_ns(3), 2_000_000_000);
    assert_eq!(extractor.timestamp_ns(1), 666_666_666);
    assert_eq!(extractor.timestamp_ns(u64::MAX), i64::MAX);
    assert_eq!(KeyframeExtractor::new(30_000).unwrap().timestamp_ns(1), 33_333_333);
    assert_eq!(KeyframeExtractor::frame_file_name("seg_1", 40), "frame_seg_1_40.png");
}

#[test]
fn configurations_are_checked() {
    let config = IndexerConfig::default();
    assert_eq!(config.extraction_fps, 1500);
    assert_eq!(config.output_dir, "./output");
    assert_eq!(config.video_extensions, vec!["mp4", "mov", "avi", "mkv"]);
    assert_eq!(config.max_concurrent_processing, 4);
    assert_eq!(config.scene_detection.ssim_threshold, 800_000);
    assert!(config.validate().is_ok());
    let message = |c: &IndexerConfig| match c.validate() {
        Err(IndexerError::Config(m)) => m,
        other => panic!("{:?}", other),
    };
    let mut c = IndexerConfig::default();
    c.extraction_fps = 0;
    c.max_concurrent_processing = 0;
    assert_eq!(c.find_fault(), Some(ConfigFault::ExtractionFps));
    assert_eq!(message(&c), "extraction_fps must be between 0 and 30");
    c.extraction_fps = 30_001;
    assert_eq!(message(&c), "extraction_fps must be between 0 and 30");
    c.extraction_fps = 30_000;
    c.scene_detection.ssim_threshold = 1_000_001;
    assert_eq!(message(&c), "ssim_threshold must be between 0 and 1");
    c.scene_detection.ssim_threshold = 1_000_000;
    assert_eq!(message(&c), "max_concurrent_processing must be greater than 0");
    assert_eq!(c.validate().unwrap_err().to_string(), "Configuration error: max_concurrent_processing must be greater than 0");
    c.max_concurrent_processing = 1;
    assert!(c.validate().is_ok());
}

#[test]
fn rows_wait_until_a_batch_is_full() {
    let mut buffer: BatchBuffer<u32> = BatchBuffer::new(3);
    assert!(buffer.is_empty());
    assert!(!buffer.add(vec![1, 2]));
    assert!(buffer.add(vec![3]));
    assert!(buffer.add(vec![4]));
    assert_eq!(buffer.len(), 4);
    let taken = buffer.take();
    assert_eq!(taken, vec![1, 2, 3, 4]);
    assert!(buffer.is_empty());
    buffer.add(vec![5]);
    // Rows that could not be written wait again, in front.
    buffer.restore(taken);
    assert_eq!(buffer.rows, vec![1, 2, 3, 4, 5]);
    buffer.set_batch_size(0);
    assert!(buffer.add(Vec::new()));
    buffer.take();
    assert!(buffer.add(Vec::new()));
}

#[test]
fn batches_become_files_named_by_the_time() {
    let mut writer = EventParquetWriter::new("out").unwrap();
    assert_eq!(writer.get_output_dir(), "out");
    assert_eq!(writer.buffer.batch_size, 1000);
    assert_eq!(writer.settings.compression, Compression::Snappy);
    assert_eq!(writer.settings.max_row_group_size, 10000);
    assert!(writer.begin_flush(0).is_none());
    writer.set_batch_size(2);
    assert!(!writer.write_event(event("a", EventType::Navigation, "t", 1, 1)));
    assert!(writer.write_events(vec![event("b", EventType::Navigation, "t", 2, 2)]));
    // 2024-03-09 16:05:07 UTC.
    let job = writer.begin_flush(1_710_000_307).unwrap();
    assert_eq!(job.file_name, "events_20240309_160507.parquet");
    assert_eq!(job.temp_name, "events_20240309_160507.tmp.parquet");
    assert!(!job.encrypt);
    assert_eq!(ids(&job.rows), vec!["a", "b"]);
    assert!(writer.buffer.is_empty());
    // The write failed: the rows wait again, before what came since.
    writer.write_event(event("c", EventType::Navigation, "t", 3, 3));
    writer.abort_flush(job);
    assert_eq!(ids(&writer.buffer.rows), vec!["a", "b", "c"]);
    // An instant that the calendar cannot name: the rows keep waiting.
    assert!(writer.begin_flush(i64::MAX).is_none());
    assert_eq!(writer.buffer.len(), 3);
    let job = writer.finalize(0).unwrap();
    assert_eq!(job.file_name, "events_19700101_000000.parquet");
    assert_eq!(job.rows.len(), 3);
    assert!(writer.finalize(0).is_none());
    assert_eq!(batch_file_name("frames", 86_399).as_deref(), Some("frames_19700101_235959.parquet"));
    assert_eq!(batch_file_name("ocr", -1).as_deref(), Some("ocr_19691231_235959.parquet"));
    assert_eq!(temporary_file_name("a.b.parquet"), "a.b.tmp.parquet");
    assert_eq!(temporary_file_name("plain"), "plain.tmp.parquet");
    assert_eq!(temporary_file_name("dot."), "dot.tmp.parquet");
    assert_eq!(temporary_file_name(""), ".tmp.parquet");
}

#[test]
fn writers_have_their_settings() {
    let mut frames = ParquetWriter::new("f").unwrap();
    assert_eq!(frames.prefix, "frames");
    assert_eq!(frames.buffer.batch_size, 1000);
    assert!(!frames.write_frame_metadata(vec![row(1, "s", "a")]));
    let mut ocr_writer = OCRParquetWriter::new("o").unwrap();
    assert_eq!(ocr_writer.prefix, "ocr");
    assert_eq!(ocr_writer.buffer.batch_size, 5000);
    assert_eq!(ocr_writer.settings.max_row_group_size, 50000);
    assert_eq!(ocr_writer.settings.write_batch_size, 2048);
    ocr_writer.set_compression(Compression::Gzip);
    ocr_writer.set_dictionary_encoding(false);
    assert_eq!(ocr_writer.settings.compression, Compression::Gzip);
    assert!(!ocr_writer.settings.enable_dictionary_encoding);
    ocr_writer.write_ocr_results(vec![ocr("f", "t", "en", 1)]);
    ocr_writer.write_ocr_batch(OCRBatch::new(vec![ocr("f", "u", "en", 1), ocr("f", "v", "en", 1)]));
    assert_eq!(ocr_writer.buffer.len(), 3);
    let events = EventParquetWriter::new("e").unwrap();
    assert_eq!(events.event_type_to_string(&EventType::ModalAppearance), "modal_appearance");
    assert_eq!(events.string_to_event_type("data_entry"), EventType::DataEntry);
    assert_eq!(events.string_to_event_type("?"), EventType::FieldChange);
}

#[test]
fn files_are_encrypted_where_that_is_switched_on() {
    let mut writer = OCRParquetWriter::new("o").unwrap();
    assert!(!writer.is_encryption_enabled());
    assert_eq!(writer.stored_bytes(b"plain".to_vec()).unwrap(), b"plain");
    assert_eq!(writer.readable_bytes(b"plain".to_vec()).unwrap(), b"plain");
    writer.enable_encryption(EncryptionManager::with_key(&[5u8; 32]));
    assert!(writer.is_encryption_enabled());
    writer.write_ocr_results(vec![ocr("f", "t", "en", 1)]);
    assert!(writer.begin_flush(0).unwrap().encrypt);
    let stored = writer.stored_bytes(b"columnar bytes".to_vec()).unwrap();
    assert_ne!(stored, b"columnar bytes");
    assert_eq!(writer.readable_bytes(stored.clone()).unwrap(), b"columnar bytes");
    let mut damaged = stored.clone();
    damaged[30] ^= 1;
    assert_eq!(
        writer.readable_bytes(damaged).unwrap_err().to_string(),
        "Encryption error: Decryption failed"
    );
    // Switched on without a key: nothing can be stored.
    writer.secure_writer = None;
    assert!(writer.stored_bytes(b"x".to_vec()).is_err());
    assert!(writer.readable_bytes(stored.clone()).is_err());
    writer.disable_encryption();
    assert_eq!(writer.readable_bytes(stored.clone()).unwrap(), stored);
}

#[test]
fn schemas() {
    let names = |s: Vec<keyframe_indexer::storage::ColumnSpec>| -> Vec<&'static str> {
        s.iter().map(|c| c.name).collect()
    };
    assert_eq!(
        names(frame_schema()),
        vec![
            "ts_ns", "monitor_id", "segment_id", "path", "phash16", "entropy", "app_name",
            "win_title", "width", "height"
        ]
    );
    assert!(frame_schema().iter().all(|c| !c.nullable));
    assert_eq!(frame_schema()[0].data_type, ColumnType::Int64);
    assert_eq!(frame_schema()[1].data_type, ColumnType::Int32);
    assert_eq!(frame_schema()[5].data_type, ColumnType::Real32);
    assert_eq!(frame_schema()[8].data_type, ColumnType::UInt32);
    assert_eq!(
        names(ocr_schema()),
        vec!["frame_id", "roi", "text", "language", "confidence", "processed_at", "processor"]
    );
    assert!(ocr_schema().iter().all(|c| !c.nullable));
    assert_eq!(ocr_schema()[1].data_type, ColumnType::Region);
    assert_eq!(ocr_schema()[5].data_type, ColumnType::TimestampNs);
    assert_eq!(names(region_schema()), vec!["x", "y", "width", "height"]);
    assert_eq!(
        names(event_schema()),
        vec![
            "event_id", "ts_ns", "type", "target", "value_from", "value_to", "confidence",
            "evidence_frames", "metadata"
        ]
    );
    let nullable: Vec<_> = event_schema().iter().filter(|c| c.nullable).map(|c| c.name).collect();
    assert_eq!(nullable, vec!["value_from", "value_to", "metadata"]);
    assert_eq!(event_schema()[7].data_type, ColumnType::ListUtf8);
    let with_dictionary = |s: Vec<keyframe_indexer::storage::ColumnSpec>| -> Vec<&'static str> {
        s.iter().filter(|c| c.dictionary).map(|c| c.name).collect()
    };
    assert!(with_dictionary(frame_schema()).is_empty());
    assert!(with_dictionary(region_schema()).is_empty());
    assert_eq!(with_dictionary(ocr_schema()), vec!["frame_id", "language", "processor"]);
    assert_eq!(with_dictionary(event_schema()), vec!["type", "target"]);
    assert_eq!(ParquetWriter::new("x").unwrap().get_schema().len(), 10);
    assert_eq!(OCRParquetWriter::new("x").unwrap().get_schema().len(), 7);
    assert_eq!(EventParquetWriter::new("x").unwrap().get_schema().len(), 9);
}

#[test]
fn queries_on_events() {
    // By kind: exactly the events of the kind, the newest first.
    let by_type = EventParquetWriter::query_by_type(sample(), &EventType::FieldChange);
    assert_eq!(ids(&by_type), vec!["a", "e", "c"]);
    assert!(EventParquetWriter::query_by_type(sample(), &EventType::DataEntry).is_empty());
    for kind in [EventType::FieldChange, EventType::ErrorDisplay, EventType::Navigation] {
        let found = EventParquetWriter::query_by_type(sample(), &kind);
        let expected = sample().iter().filter(|e| e.event_type == kind).count();
        assert_eq!(found.len(), expected);
        assert!(found.iter().all(|e| e.event_type == kind));
    }
    let by_target = EventParquetWriter::query_by_target(sample(), "field_1");
    assert_eq!(ids(&by_target), vec!["a", "d", "e"]);
    assert!(EventParquetWriter::query_by_target(sample(), "field_").is_empty());
    // By confidence: the most confident first; a least confidence of 0 gives every row.
    let all = EventParquetWriter::query_by_confidence(sample(), 0);
    assert_eq!(all.len(), sample().len());
    assert_eq!(ids(&all), vec!["b", "c", "a", "e", "d"]);
    let some = EventParquetWriter::query_by_confidence(sample(), 700_000);
    assert_eq!(ids(&some), vec!["b", "c", "a"]);
    assert!(EventParquetWriter::query_by_confidence(sample(), 900_001).is_empty());
    // By time: both ends count, the oldest first.
    let range = EventParquetWriter::query_by_time_range(sample(), 20, 30);
    assert_eq!(ids(&range), vec!["c", "a", "d", "e"]);
    assert_eq!(ids(&EventParquetWriter::query_by_time_range(sample(), 10, 10)), vec!["b"]);
    assert!(EventParquetWriter::query_by_time_range(sample(), 31, 5).is_empty());
    assert_eq!(ids(&order_events(sample(), EventOrder::OldestFirst)), vec!["b", "c", "a", "d", "e"]);
    assert_eq!(ids(&order_events(sample(), EventOrder::NewestFirst)), vec!["a", "d", "e", "c", "b"]);
    assert!(order_events(Vec::new(), EventOrder::MostConfidentFirst).is_empty());
}

#[test]
fn queries_on_ocr_results() {
    let rows = || {
        vec![
            ocr("f1", "Hello World", "en-US", 900_000),
            ocr("f2", "hello there", "en-US", 950_000),
            ocr("f1", "Bonjour", "fr-FR", 800_000),
            ocr("f3", "SAY HELLO", "en-GB", 950_000),
        ]
    };
    let texts = |r: &[OCRResult]| -> Vec<String> { r.iter().map(|x| x.text.clone()).collect() };
    assert_eq!(texts(&OCRParquetWriter::query_by_frame_id(rows(), "f1")), vec!["Hello World", "Bonjour"]);
    assert!(OCRParquetWriter::query_by_frame_id(rows(), "f").is_empty());
    assert_eq!(texts(&OCRParquetWriter::query_by_language(rows(), "en-US")), vec!["Hello World", "hello there"]);
    assert!(OCRParquetWriter::query_by_language(rows(), "en-us").is_empty());
    // The text is searched whatever the case, and the most confident comes first.
    assert_eq!(
        texts(&OCRParquetWriter::query_by_text(rows(), "HELLO")),
        vec!["hello there", "SAY HELLO", "Hello World"]
    );
    assert_eq!(texts(&OCRParquetWriter::query_by_text(rows(), "o w")), vec!["Hello World"]);
    assert_eq!(OCRParquetWriter::query_by_text(rows(), "").len(), 4);
    assert!(OCRParquetWriter::query_by_text(rows(), "xyz").is_empty());
    assert_eq!(
        texts(&OCRParquetWriter::query_by_confidence(rows(), 900_000)),
        vec!["hello there", "SAY HELLO", "Hello World"]
    );
    assert_eq!(OCRParquetWriter::query_by_confidence(rows(), 0).len(), 4);
}

#[test]
fn rows_are_written_as_lines_and_read_back() {
    let rows = vec![
        row(1_000_000_000, "test_segment_1", "TestApp"),
        row(-5, "seg,with comma", "Say \"hi\""),
    ];
    let text = format_csv(&rows);
    assert_eq!(
        text,
        "ts_ns,monitor_id,segment_id,path,phash16,entropy,app_name,win_title,width,height\n\
         1000000000,1,test_segment_1,/path/to/frame1.png,12345,5.5,TestApp,Test Window,1920,1080\n\
         -5,1,\"seg,with comma\",/path/to/frame1.png,12345,5.5,\"Say \"\"hi\"\"\",Test Window,1920,1080\n"
    );
    let back = parse_csv(&text);
    // A line is cut at every comma, so the row with a comma in a field does not read back.
    assert_eq!(back.len(), 1);
    assert_eq!(back[0].ts_ns, 1_000_000_000);
    assert_eq!(back[0].segment_id, "test_segment_1");
    assert_eq!(back[0].entropy, 5_500_000);
    assert_eq!(back[0].width, 1920);
    let quoted = parse_csv("header\r\n7,x,\"a\"\"b\",\"\",,no,\",\"\"\",8,9\r\n\nshort,line\n1,2,3,4,5,6,7,8,9,10");
    assert_eq!(quoted.len(), 2);
    assert_eq!(quoted[0].ts_ns, 7);
    assert_eq!(quoted[0].monitor_id, 0);
    assert_eq!(quoted[0].segment_id, "a\"b");
    assert_eq!(quoted[0].path, "");
    assert_eq!(quoted[0].phash16, 0);
    assert_eq!(quoted[0].entropy, 0);
    assert_eq!(quoted[0].app_name, "\"");
    assert_eq!(quoted[0].win_title, "\"");
    assert_eq!(quoted[0].height, 9);
    assert_eq!(quoted[1].height, 10);
    assert!(parse_csv("").is_empty());
    assert!(parse_csv("only a header").is_empty());
    assert_eq!(format_csv(&Vec::new()).lines().count(), 1);
}

#[test]
fn csv_batches() {
    let mut writer = CsvWriter::new("out").unwrap();
    assert_eq!(writer.get_output_dir(), "out");
    assert!(writer.flush_batch(0).is_none());
    writer.set_batch_size(2);
    assert!(!writer.write_frame_metadata(vec![row(1, "a", "x")]));
    assert!(writer.write_frame_metadata(vec![row(2, "b", "y")]));
    let job = writer.flush_batch(1_710_000_307).unwrap();
    assert_eq!(job.file_name, "frames_20240309_160507.csv");
    assert_eq!(job.content, format_csv(&job.rows));
    assert_eq!(writer.read_csv_file(&job.content).unwrap().len(), 2);
    assert!(writer.buffer.is_empty());
    writer.abort_flush(job);
    assert_eq!(writer.buffer.len(), 2);
    assert!(writer.finalize(0).is_some());
    assert!(writer.finalize(0).is_none());
}

#[test]
fn short_hash_of_a_frame() {
    // Mean 31 when rounded down: of the first 16 samples none is above it.
    let ramp: Vec<u8> = (0..64).collect();
    assert_eq!(short_hash_of_samples(&ramp), 0);
    let falling: Vec<u8> = (0..64).rev().collect();
    assert_eq!(short_hash_of_samples(&falling), 0xFFFF);
    // A sample at the mean is not above it.
    assert_eq!(short_hash_of_samples(&vec![9u8; 64]), 0);
    let mut one = vec![0u8; 64];
    one[3] = 255;
    one[40] = 255;
    assert_eq!(short_hash_of_samples(&one), 1 << 3);
    let collector = MetadataCollector::new().unwrap();
    let frame = GrayFrame::new(8, 8, falling).unwrap();
    assert_eq!(collector.calculate_simple_phash(&frame).unwrap(), 0xFFFF);
    let big = GrayFrame::new(64, 64, vec![0u8; 4096]).unwrap();
    assert_eq!(collector.calculate_simple_phash(&big).unwrap(), 0);
    let m = collector.frame_metadata(
        5,
        "segment_monitor3_1",
        "/p.png",
        64,
        48,
        7,
        1_000_000,
        "App".to_string(),
        "Title".to_string(),
    );
    assert_eq!(m.monitor_id, 3);
    assert_eq!(m.ts_ns, 5);
    assert_eq!(m.path, "/p.png");
    assert_eq!((m.width, m.height, m.phash16, m.entropy), (64, 48, 7, 1_000_000));
}

#[test]
fn error_messages_name_their_kind() {
    assert_eq!(IndexerError::Io("gone".to_string()).to_string(), "IO error: gone");
    assert_eq!(
        IndexerError::CorruptedVideo("a.mp4".to_string()).to_string(),
        "Video file is corrupted or incomplete: a.mp4"
    );
    assert_eq!(
        IndexerError::UnsupportedFormat("x".to_string()).to_string(),
        "Unsupported video format: x"
    );
    assert_eq!(IndexerError::Parquet("p".to_string()).to_string(), "Parquet error: p");
    assert_eq!(IndexerError::Metadata("".to_string()).to_string(), "Metadata collection error: ");
}

#[test]
fn notes_are_stored_as_a_json_object() {
    let mut notes = Metadata::new();
    assert_eq!(stored_notes(&notes), None);
    notes.add("roi_y", "5".to_string());
    notes.add("text", "say \"hi\"\n".to_string());
    notes.add("roi_y", "7".to_string());
    assert_eq!(
        stored_notes(&notes).as_deref(),
        Some("{\"roi_y\":\"7\",\"text\":\"say \\\"hi\\\"\\n\"}")
    );
    assert_eq!(notes.to_json(), stored_notes(&notes));
    let once = notes.without_repeats();
    assert_eq!(once.entries, vec![
        ("roi_y".to_string(), "7".to_string()),
        ("text".to_string(), "say \"hi\"\n".to_string()),
    ]);
    assert_eq!(stored_text(0, Some("{}".to_string())), None);
    assert_eq!(stored_text(2, None), Some(String::new()));
    assert_eq!(stored_text(1, Some("{}".to_string())).as_deref(), Some("{}"));
}

#[test]
fn stored_notes_are_read_back_in_the_order_of_their_keys() {
    let read = read_notes(Some("{\"b\":\"2\",\"a\":\"1\"}"));
    assert_eq!(read.entries, vec![
        ("a".to_string(), "1".to_string()),
        ("b".to_string(), "2".to_string()),
    ]);
    assert_eq!(read_notes(None).len(), 0);
    assert_eq!(read_notes(Some("")).len(), 0);
    assert_eq!(read_notes(Some("{\"a\":1}")).len(), 0);
    assert_eq!(read_notes(Some("[\"a\"]")).len(), 0);
    assert!(Metadata::from_json("not json").is_none());
    assert_eq!(Metadata::from_json("{}").map(|m| m.len()), Some(0));
    let mut notes = Metadata::new();
    notes.add("zeta", "\u{e9}".to_string());
    notes.add("alpha", "".to_string());
    let back = read_notes(stored_notes(&notes).as_deref());
    assert_eq!(back.get("zeta").map(|s| s.as_str()), Some("\u{e9}"));
    assert_eq!(back.get("alpha").map(|s| s.as_str()), Some(""));
    assert_eq!(back.len(), 2);
}

#[test]
fn rows_of_frame_metadata_become_columns_and_rows_again() {
    let rows = vec![row(10, "seg_1", "Safari"), row(20, "seg_2", "Mail")];
    let columns = FrameColumns::of_rows(&rows);
    assert_eq!(columns.ts_ns, vec![10, 20]);
    assert_eq!(columns.segment_id, vec!["seg_1".to_string(), "seg_2".to_string()]);
    assert_eq!(columns.app_name, vec!["Safari".to_string(), "Mail".to_string()]);
    assert_eq!(columns.entropy, vec![5_500_000, 5_500_000]);
    assert_eq!(columns.width, vec![1920, 1920]);
    let back = columns.rows().unwrap();
    assert_eq!(format_csv(&back), format_csv(&rows));
    let mut uneven = FrameColumns::of_rows(&rows);
    uneven.height.pop();
    assert!(uneven.rows().is_none());
    assert_eq!(FrameColumns::new().rows().map(|r| r.len()), Some(0));
}

#[test]
fn text_regions_become_columns_and_rows_again() {
    let mut first = ocr("f1", "Username:", "en-US", 950_000);
    first.roi = BoundingBox::new(-3, 50, 80, 20);
    first.processed_at = 77;
    let rows = vec![first, ocr("f2", "", "de-DE", 0)];
    let columns = OcrColumns::of_rows(&rows);
    assert_eq!(columns.roi_x, vec![-3, 0]);
    assert_eq!(columns.roi_y, vec![50, 0]);
    assert_eq!(columns.roi_width, vec![80, 1]);
    assert_eq!(columns.roi_height, vec![20, 1]);
    assert_eq!(columns.confidence, vec![950_000, 0]);
    assert_eq!(columns.processed_at, vec![77, 0]);
    let back = columns.rows().unwrap();
    assert_eq!(back.len(), 2);
    assert_eq!(back[0].frame_id, "f1");
    assert_eq!(back[0].roi, BoundingBox::new(-3, 50, 80, 20));
    assert_eq!(back[0].text, "Username:");
    assert_eq!(back[1].language, "de-DE");
    assert_eq!(back[1].processor, "vision");
    let mut uneven = OcrColumns::of_rows(&rows);
    uneven.text.push("x".to_string());
    assert!(uneven.rows().is_none());
}

#[test]
fn events_become_columns_and_rows_again() {
    let mut changed = event("e1", EventType::FieldChange, "field_1_2", 5, 700_000);
    changed.value_from = Some("".to_string());
    changed.value_to = Some("john".to_string());
    changed.evidence_frames = vec!["a".to_string(), "b".to_string()];
    changed.metadata.add("roi_x", "1".to_string());
    changed.metadata.add("kind", "text".to_string());
    let plain = event("e2", EventType::ErrorDisplay, "error_dialog", 6, 900_000);
    let events = vec![changed, plain];
    let columns = EventColumns::of_rows(&events);
    assert_eq!(columns.event_id, vec!["e1".to_string(), "e2".to_string()]);
    assert_eq!(columns.ts_ns, vec![5, 6]);
    assert_eq!(columns.kind, vec!["field_change".to_string(), "error_display".to_string()]);
    assert_eq!(columns.value_from, vec![Some("".to_string()), None]);
    assert_eq!(columns.value_to, vec![Some("john".to_string()), None]);
    assert_eq!(columns.confidence, vec![700_000, 900_000]);
    assert_eq!(columns.evidence_frames[0], vec!["a".to_string(), "b".to_string()]);
    assert_eq!(
        columns.metadata,
        vec![Some("{\"kind\":\"text\",\"roi_x\":\"1\"}".to_string()), None]
    );
    let back = columns.rows().unwrap();
    assert_eq!(ids(&back), vec!["e1", "e2"]);
    assert_eq!(back[0].event_type, EventType::FieldChange);
    assert_eq!(back[0].value_to.as_deref(), Some("john"));
    assert_eq!(back[0].evidence_frames.len(), 2);
    assert_eq!(back[0].metadata.get("roi_x").map(|s| s.as_str()), Some("1"));
    assert_eq!(back[0].metadata.len(), 2);
    assert_eq!(back[1].event_type, EventType::ErrorDisplay);
    assert_eq!(back[1].metadata.len(), 0);
    let mut odd = EventColumns::of_rows(&events);
    odd.kind[1] = "something else".to_string();
    odd.metadata[0] = Some("no json".to_string());
    let read = odd.rows().unwrap();
    assert_eq!(read[1].event_type, EventType::from_name("something else"));
    assert_eq!(read[0].metadata.len(), 0);
    odd.target.clear();
    assert!(odd.rows().is_none());
}

#[test]
fn the_sampler_stores_every_frame_at_the_interval() {
    let extractor = KeyframeExtractor::new(1500).unwrap();
    let mut sampler = Sampler::new(extractor, "seg_7".to_string(), 30, 1).unwrap();
    assert_eq!(sampler.interval, 20);
    let mut stored = Vec::new();
    for _ in 0..45 {
        match sampler.next_frame() {
            SamplerAction::Save { frame_number, file_name, timestamp_ns } => {
                stored.push((frame_number, file_name, timestamp_ns))
            }
            SamplerAction::Skip => {}
        }
    }
    assert_eq!(sampler.frame_count, 45);
    assert_eq!(
        stored,
        vec![
            (0, "frame_seg_7_0.png".to_string(), 0),
            (20, "frame_seg_7_20.png".to_string(), 13_333_333_333),
            (40, "frame_seg_7_40.png".to_string(), 26_666_666_666),
        ]
    );
    let keyframe = sampler.keyframe("id".to_string(), 5, "p.png".to_string(), 64, 48, "RGB24".to_string());
    assert_eq!(keyframe.segment_id, "seg_7");
    assert_eq!((keyframe.width, keyframe.height, keyframe.timestamp_ns), (64, 48, 5));
    assert_eq!(keyframe.frame_path, "p.png");
    assert!(Sampler::new(KeyframeExtractor::new(0).unwrap(), "s".to_string(), 30, 1).is_none());
    assert!(Sampler::new(KeyframeExtractor::new(30_000).unwrap(), "s".to_string(), 30, 0).is_none());
    assert!(Sampler::new(KeyframeExtractor::new(30_000).unwrap(), "s".to_string(), 10, 1).is_none());
    let every = Sampler::new(KeyframeExtractor::new(30_000).unwrap(), "s".to_string(), 30, 1).unwrap();
    assert_eq!(every.interval, 1);
}
