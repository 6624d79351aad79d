//! The errors of the pipeline.

use vstd::prelude::*;
use crate::text::{char_vec, push_all, string_of};

verus! {

/// What can go wrong while a segment is indexed. Each variant carries the
/// detail as text.
#[derive(Debug)]
pub enum IndexerError {
    Io(String),
    Image(String),
    Arrow(String),
    Parquet(String),
    DataFusion(String),
    Serde(String),
    Notify(String),
    CorruptedVideo(String),
    UnsupportedFormat(String),
    Config(String),
    Metadata(String),
    Navigation(String),
    CursorTracking(String),
    EventCorrelation(String),
    Encryption(String),
}

pub type Result<T> = core::result::Result<T, IndexerError>;

impl IndexerError {
    /// The words that introduce the detail of the error.
    pub open spec fn spec_prefix(self) -> Seq<char> {
        match self {
            IndexerError::Io(_) => "IO error: "@,
            IndexerError::Image(_) => "Image processing error: "@,
            IndexerError::Arrow(_) => "Arrow error: "@,
            IndexerError::Parquet(_) => "Parquet error: "@,
            IndexerError::DataFusion(_) => "DataFusion error: "@,
            IndexerError::Serde(_) => "Serialization error: "@,
            IndexerError::Notify(_) => "File watcher error: "@,
            IndexerError::CorruptedVideo(_) => "Video file is corrupted or incomplete: "@,
            IndexerError::UnsupportedFormat(_) => "Unsupported video format: "@,
            IndexerError::Config(_) => "Configuration error: "@,
            IndexerError::Metadata(_) => "Metadata collection error: "@,
            IndexerError::Navigation(_) => "Navigation detection error: "@,
            IndexerError::CursorTracking(_) => "Cursor tracking error: "@,
            IndexerError::EventCorrelation(_) => "Event correlation error: "@,
            IndexerError::Encryption(_) => "Encryption error: "@,
        }
    }

    /// The detail of the error.
    pub open spec fn spec_detail(self) -> Seq<char> {
        match self {
            IndexerError::Io(d) => d@,
            IndexerError::Image(d) => d@,
            IndexerError::Arrow(d) => d@,
            IndexerError::Parquet(d) => d@,
            IndexerError::DataFusion(d) => d@,
            IndexerError::Serde(d) => d@,
            IndexerError::Notify(d) => d@,
            IndexerError::CorruptedVideo(d) => d@,
            IndexerError::UnsupportedFormat(d) => d@,
            IndexerError::Config(d) => d@,
            IndexerError::Metadata(d) => d@,
            IndexerError::Navigation(d) => d@,
            IndexerError::CursorTracking(d) => d@,
            IndexerError::EventCorrelation(d) => d@,
            IndexerError::Encryption(d) => d@,
        }
    }

    fn prefix(&self) -> (s: &'static str)
        ensures
            s@ == self.spec_prefix(),
    {
        match self {
            IndexerError::Io(_) => "IO error: ",
            IndexerError::Image(_) => "Image processing error: ",
            IndexerError::Arrow(_) => "Arrow error: ",
            IndexerError::Parquet(_) => "Parquet error: ",
            IndexerError::DataFusion(_) => "DataFusion error: ",
            IndexerError::Serde(_) => "Serialization error: ",
            IndexerError::Notify(_) => "File watcher error: ",
            IndexerError::CorruptedVideo(_) => "Video file is corrupted or incomplete: ",
            IndexerError::UnsupportedFormat(_) => "Unsupported video format: ",
            IndexerError::Config(_) => "Configuration error: ",
            IndexerError::Metadata(_) => "Metadata collection error: ",
            IndexerError::Navigation(_) => "Navigation detection error: ",
            IndexerError::CursorTracking(_) => "Cursor tracking error: ",
            IndexerError::EventCorrelation(_) => "Event correlation error: ",
            IndexerError::Encryption(_) => "Encryption error: ",
        }
    }

    fn detail(&self) -> (s: &String)
        ensures
            s@ == self.spec_detail(),
    {
        match self {
            IndexerError::Io(d) => d,
            IndexerError::Image(d) => d,
            IndexerError::Arrow(d) => d,
            IndexerError::Parquet(d) => d,
            IndexerError::DataFusion(d) => d,
            IndexerError::Serde(d) => d,
            IndexerError::Notify(d) => d,
            IndexerError::CorruptedVideo(d) => d,
            IndexerError::UnsupportedFormat(d) => d,
            IndexerError::Config(d) => d,
            IndexerError::Metadata(d) => d,
            IndexerError::Navigation(d) => d,
            IndexerError::CursorTracking(d) => d,
            IndexerError::EventCorrelation(d) => d,
            IndexerError::Encryption(d) => d,
        }
    }

    /// The message of the error: what kind it is, then the detail.
    pub fn to_string(&self) -> (s: String)
        ensures
            s@ == self.spec_prefix() + self.spec_detail(),
    {
        let mut out = char_vec(self.prefix());
        let d = char_vec(self.detail().as_str());
        push_all(&mut out, &d);
        string_of(&out)
    }
}

} // verus!
