//! The configuration of the indexer.

use vstd::prelude::*;
use crate::error::{IndexerError, Result};
use crate::scene::SceneDetectionConfig;
use crate::units::UNIT;

verus! {

/// The greatest rate at which frames are extracted, in thousandths of a
/// frame per second.
pub const MAX_EXTRACTION_FPS: u32 = 30_000;

/// The configuration of the indexer.
#[derive(Clone, Debug)]
pub struct IndexerConfig {
    /// The rate at which frames are extracted, in thousandths of a frame
    /// per second.
    pub extraction_fps: u32,
    pub output_dir: String,
    pub scene_detection: SceneDetectionConfig,
    /// The endings of the names of video files, without the dot.
    pub video_extensions: Vec<String>,
    /// How many segments are processed at the same time.
    pub max_concurrent_processing: usize,
}

/// Why a configuration is refused.
#[derive(Clone, Copy, Debug, PartialEq, Eq, Structural)]
pub enum ConfigFault {
    ExtractionFps,
    SsimThreshold,
    Concurrency,
}

impl ConfigFault {
    pub open spec fn spec_message(self) -> Seq<char> {
        match self {
            ConfigFault::ExtractionFps => "extraction_fps must be between 0 and 30"@,
            ConfigFault::SsimThreshold => "ssim_threshold must be between 0 and 1"@,
            ConfigFault::Concurrency => "max_concurrent_processing must be greater than 0"@,
        }
    }

    /// What is wrong, in words.
    pub fn message(&self) -> (s: &'static str)
        ensures
            s@ == self.spec_message(),
    {
        match self {
            ConfigFault::ExtractionFps => "extraction_fps must be between 0 and 30",
            ConfigFault::SsimThreshold => "ssim_threshold must be between 0 and 1",
            ConfigFault::Concurrency => "max_concurrent_processing must be greater than 0",
        }
    }
}

/// The first fault of a configuration: the extraction rate is not above 0
/// and at most 30 frames per second, the similarity threshold is above 1,
/// or no segment at all may be processed. None for a valid configuration.
pub open spec fn first_fault(
    extraction_fps: u32,
    ssim_threshold: u32,
    max_concurrent_processing: usize,
) -> Option<ConfigFault> {
    if extraction_fps == 0 || extraction_fps > MAX_EXTRACTION_FPS {
        Some(ConfigFault::ExtractionFps)
    } else if ssim_threshold > UNIT {
        Some(ConfigFault::SsimThreshold)
    } else if max_concurrent_processing == 0 {
        Some(ConfigFault::Concurrency)
    } else {
        None
    }
}

impl IndexerConfig {
    /// Whether the configuration has the default values.
    pub open spec fn is_default(&self) -> bool {
        &&& self.extraction_fps == 1500
        &&& self.output_dir@ == "./output"@
        &&& self.scene_detection == SceneDetectionConfig::spec_default()
        &&& crate::text::string_views(self.video_extensions@) == seq![
            "mp4"@,
            "mov"@,
            "avi"@,
            "mkv"@,
        ]
        &&& self.max_concurrent_processing == 4
    }

    /// The first fault of the configuration, if it has one.
    pub open spec fn fault(&self) -> Option<ConfigFault> {
        first_fault(
            self.extraction_fps,
            self.scene_detection.ssim_threshold,
            self.max_concurrent_processing,
        )
    }

    /// The first fault of the configuration, if it has one.
    pub fn find_fault(&self) -> (f: Option<ConfigFault>)
        ensures
            f == self.fault(),
    {
        if self.extraction_fps == 0 || self.extraction_fps > MAX_EXTRACTION_FPS {
            Some(ConfigFault::ExtractionFps)
        } else if self.scene_detection.ssim_threshold > UNIT {
            Some(ConfigFault::SsimThreshold)
        } else if self.max_concurrent_processing == 0 {
            Some(ConfigFault::Concurrency)
        } else {
            None
        }
    }

    /// Accepts a valid configuration and refuses any other with the words
    /// for its first fault.
    pub fn validate(&self) -> (r: Result<()>)
        ensures
            match self.fault() {
                Some(f) => r is Err && r->Err_0 is Config && r->Err_0->Config_0@ == f.spec_message(),
                None => r is Ok,
            },
    {
        match self.find_fault() {
            Some(f) => Err(IndexerError::Config(String::from_str(f.message()))),
            None => Ok(()),
        }
    }
}

impl Default for IndexerConfig {
    fn default() -> (c: Self)
        ensures
            c.is_default(),
            c.fault() is None,
    {
        let mut video_extensions: Vec<String> = Vec::new();
        video_extensions.push(String::from_str("mp4"));
        video_extensions.push(String::from_str("mov"));
        video_extensions.push(String::from_str("avi"));
        video_extensions.push(String::from_str("mkv"));
        assert(crate::text::string_views(video_extensions@) =~= seq![
            "mp4"@,
            "mov"@,
            "avi"@,
            "mkv"@,
        ]);
        IndexerConfig {
            extraction_fps: 1500,
            output_dir: String::from_str("./output"),
            scene_detection: SceneDetectionConfig::default(),
            video_extensions,
            max_concurrent_processing: 4,
        }
    }
}

} // verus!
