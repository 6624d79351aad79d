//! Keyframe indexing and screen-activity analysis.
//!
//! The crate holds the decision logic of the pipeline: perceptual hashing and
//! scene classification, OCR delta analysis, error and dialog classification,
//! event correlation, batching and the framing of encrypted files. Every
//! score is a fixed-point number in millionths (see [`units`]), every
//! coordinate a whole pixel and every instant a count of nanoseconds, so that
//! each result is stated exactly in the contracts.

pub mod error;
pub mod units;
pub mod geometry;
pub mod text;
pub mod seqs;
pub mod ids;
pub mod clock;
pub mod keyvalue;
pub mod ocr;
pub mod pixels;
pub mod error_modal;
pub mod metadata_collector;
pub mod scene;
pub mod ssim;
pub mod events;
pub mod cursor;
pub mod navigation;
pub mod keyframe;
pub mod correlator;
pub mod csv_writer;
pub mod encryption;
pub mod storage;
pub mod columns;
pub mod delta_analyzer;
pub mod config;
pub mod keyframe_extractor;
pub mod file_watcher;
pub mod navigation_integration;
pub mod probes;
