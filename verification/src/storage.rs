//! Batching of rows for the columnar files, the names of the files, the
//! text that is stored for the notes of an event, and the predicates of the
//! query surface.

use vstd::prelude::*;
use crate::keyvalue::{json_of_notes, merged, notes_of_json, Metadata};
use crate::clock::{format_utc_stamp, utc_stamp};
use crate::encryption::{EncryptionManager, opens_to, MAX_PLAINTEXT_LEN};
use crate::error::{IndexerError, Result};
use crate::events::{DetectedEvent, EventType};
use crate::metadata_collector::FrameMetadata;
use crate::ocr::OCRResult;
use crate::seqs::{
    keep_if,
    lemma_keep_all,
    lemma_keep_if_step,
    lemma_ordered_by,
    ordered_by,
    place_for,
};
use crate::text::{
    char_vec,
    contains,
    lowercase_of,
    option_view,
    push_str_chars,
    spec_contains,
    str_eq,
    string_of,
    to_lowercase,
};

verus! {

/// How the pages of a file are compressed.
#[derive(Clone, Copy, Debug, PartialEq, Eq, Structural)]
pub enum Compression {
    Uncompressed,
    Snappy,
    Gzip,
    Lz4,
}

/// The type of a column.
#[derive(Clone, Copy, Debug, PartialEq, Eq, Structural)]
pub enum ColumnType {
    Int32,
    Int64,
    UInt32,
    /// A 32-bit real number.
    Real32,
    Utf8,
    /// An instant in nanoseconds.
    TimestampNs,
    /// The four numbers of a region.
    Region,
    /// A list of texts.
    ListUtf8,
}

/// A column of a schema.
#[derive(Clone, Copy, Debug)]
pub struct ColumnSpec {
    pub name: &'static str,
    pub data_type: ColumnType,
    pub nullable: bool,
    /// Whether the texts of the column repeat so often that they are
    /// written with a dictionary.
    pub dictionary: bool,
}

/// The columns of the frame metadata, in their fixed order; all required.
pub open spec fn frame_columns() -> Seq<ColumnSpec> {
    seq![
        ColumnSpec { name: "ts_ns", data_type: ColumnType::Int64, nullable: false, dictionary: false },
        ColumnSpec { name: "monitor_id", data_type: ColumnType::Int32, nullable: false, dictionary: false },
        ColumnSpec { name: "segment_id", data_type: ColumnType::Utf8, nullable: false, dictionary: false },
        ColumnSpec { name: "path", data_type: ColumnType::Utf8, nullable: false, dictionary: false },
        ColumnSpec { name: "phash16", data_type: ColumnType::Int64, nullable: false, dictionary: false },
        ColumnSpec { name: "entropy", data_type: ColumnType::Real32, nullable: false, dictionary: false },
        ColumnSpec { name: "app_name", data_type: ColumnType::Utf8, nullable: false, dictionary: false },
        ColumnSpec { name: "win_title", data_type: ColumnType::Utf8, nullable: false, dictionary: false },
        ColumnSpec { name: "width", data_type: ColumnType::UInt32, nullable: false, dictionary: false },
        ColumnSpec { name: "height", data_type: ColumnType::UInt32, nullable: false, dictionary: false },
    ]
}

/// The columns of the OCR results; all required. The identifiers of the
/// frames, the languages and the processors repeat and are written with a
/// dictionary.
pub open spec fn ocr_columns() -> Seq<ColumnSpec> {
    seq![
        ColumnSpec { name: "frame_id", data_type: ColumnType::Utf8, nullable: false, dictionary: true },
        ColumnSpec { name: "roi", data_type: ColumnType::Region, nullable: false, dictionary: false },
        ColumnSpec { name: "text", data_type: ColumnType::Utf8, nullable: false, dictionary: false },
        ColumnSpec { name: "language", data_type: ColumnType::Utf8, nullable: false, dictionary: true },
        ColumnSpec { name: "confidence", data_type: ColumnType::Real32, nullable: false, dictionary: false },
        ColumnSpec { name: "processed_at", data_type: ColumnType::TimestampNs, nullable: false, dictionary: false },
        ColumnSpec { name: "processor", data_type: ColumnType::Utf8, nullable: false, dictionary: true },
    ]
}

/// The columns of a region.
pub open spec fn region_columns() -> Seq<ColumnSpec> {
    seq![
        ColumnSpec { name: "x", data_type: ColumnType::Real32, nullable: false, dictionary: false },
        ColumnSpec { name: "y", data_type: ColumnType::Real32, nullable: false, dictionary: false },
        ColumnSpec { name: "width", data_type: ColumnType::Real32, nullable: false, dictionary: false },
        ColumnSpec { name: "height", data_type: ColumnType::Real32, nullable: false, dictionary: false },
    ]
}

/// The columns of the events; the old value, the new value and the notes
/// may be missing. The kinds and the targets repeat and are written with a
/// dictionary.
pub open spec fn event_columns() -> Seq<ColumnSpec> {
    seq![
        ColumnSpec { name: "event_id", data_type: ColumnType::Utf8, nullable: false, dictionary: false },
        ColumnSpec { name: "ts_ns", data_type: ColumnType::TimestampNs, nullable: false, dictionary: false },
        ColumnSpec { name: "type", data_type: ColumnType::Utf8, nullable: false, dictionary: true },
        ColumnSpec { name: "target", data_type: ColumnType::Utf8, nullable: false, dictionary: true },
        ColumnSpec { name: "value_from", data_type: ColumnType::Utf8, nullable: true, dictionary: false },
        ColumnSpec { name: "value_to", data_type: ColumnType::Utf8, nullable: true, dictionary: false },
        ColumnSpec { name: "confidence", data_type: ColumnType::Real32, nullable: false, dictionary: false },
        ColumnSpec { name: "evidence_frames", data_type: ColumnType::ListUtf8, nullable: false, dictionary: false },
        ColumnSpec { name: "metadata", data_type: ColumnType::Utf8, nullable: true, dictionary: false },
    ]
}

/// The columns of the frame metadata.
pub fn frame_schema() -> (v: Vec<ColumnSpec>)
    ensures
        v@ == frame_columns(),
{
    let v = vec![
        ColumnSpec { name: "ts_ns", data_type: ColumnType::Int64, nullable: false, dictionary: false },
        ColumnSpec { name: "monitor_id", data_type: ColumnType::Int32, nullable: false, dictionary: false },
        ColumnSpec { name: "segment_id", data_type: ColumnType::Utf8, nullable: false, dictionary: false },
        ColumnSpec { name: "path", data_type: ColumnType::Utf8, nullable: false, dictionary: false },
        ColumnSpec { name: "phash16", data_type: ColumnType::Int64, nullable: false, dictionary: false },
        ColumnSpec { name: "entropy", data_type: ColumnType::Real32, nullable: false, dictionary: false },
        ColumnSpec { name: "app_name", data_type: ColumnType::Utf8, nullable: false, dictionary: false },
        ColumnSpec { name: "win_title", data_type: ColumnType::Utf8, nullable: false, dictionary: false },
        ColumnSpec { name: "width", data_type: ColumnType::UInt32, nullable: false, dictionary: false },
        ColumnSpec { name: "height", data_type: ColumnType::UInt32, nullable: false, dictionary: false },
    ];
    assert(v@ =~= frame_columns());
    v
}

/// The columns of the OCR results.
pub fn ocr_schema() -> (v: Vec<ColumnSpec>)
    ensures
        v@ == ocr_columns(),
{
    let v = vec![
        ColumnSpec { name: "frame_id", data_type: ColumnType::Utf8, nullable: false, dictionary: true },
        ColumnSpec { name: "roi", data_type: ColumnType::Region, nullable: false, dictionary: false },
        ColumnSpec { name: "text", data_type: ColumnType::Utf8, nullable: false, dictionary: false },
        ColumnSpec { name: "language", data_type: ColumnType::Utf8, nullable: false, dictionary: true },
        ColumnSpec { name: "confidence", data_type: ColumnType::Real32, nullable: false, dictionary: false },
        ColumnSpec { name: "processed_at", data_type: ColumnType::TimestampNs, nullable: false, dictionary: false },
        ColumnSpec { name: "processor", data_type: ColumnType::Utf8, nullable: false, dictionary: true },
    ];
    assert(v@ =~= ocr_columns());
    v
}

/// The columns of a region.
pub fn region_schema() -> (v: Vec<ColumnSpec>)
    ensures
        v@ == region_columns(),
{
    let v = vec![
        ColumnSpec { name: "x", data_type: ColumnType::Real32, nullable: false, dictionary: false },
        ColumnSpec { name: "y", data_type: ColumnType::Real32, nullable: false, dictionary: false },
        ColumnSpec { name: "width", data_type: ColumnType::Real32, nullable: false, dictionary: false },
        ColumnSpec { name: "height", data_type: ColumnType::Real32, nullable: false, dictionary: false },
    ];
    assert(v@ =~= region_columns());
    v
}

/// The columns of the events.
pub fn event_schema() -> (v: Vec<ColumnSpec>)
    ensures
        v@ == event_columns(),
{
    let v = vec![
        ColumnSpec { name: "event_id", data_type: ColumnType::Utf8, nullable: false, dictionary: false },
        ColumnSpec { name: "ts_ns", data_type: ColumnType::TimestampNs, nullable: false, dictionary: false },
        ColumnSpec { name: "type", data_type: ColumnType::Utf8, nullable: false, dictionary: true },
        ColumnSpec { name: "target", data_type: ColumnType::Utf8, nullable: false, dictionary: true },
        ColumnSpec { name: "value_from", data_type: ColumnType::Utf8, nullable: true, dictionary: false },
        ColumnSpec { name: "value_to", data_type: ColumnType::Utf8, nullable: true, dictionary: false },
        ColumnSpec { name: "confidence", data_type: ColumnType::Real32, nullable: false, dictionary: false },
        ColumnSpec { name: "evidence_frames", data_type: ColumnType::ListUtf8, nullable: false, dictionary: false },
        ColumnSpec { name: "metadata", data_type: ColumnType::Utf8, nullable: true, dictionary: false },
    ];
    assert(v@ =~= event_columns());
    v
}

/// How a file is written.
#[derive(Clone, Copy, Debug, PartialEq, Eq, Structural)]
pub struct WriterSettings {
    pub compression: Compression,
    /// Whether low-cardinality texts are dictionary-encoded.
    pub enable_dictionary_encoding: bool,
    /// How many rows are handed to the encoder at once.
    pub write_batch_size: usize,
    /// The most rows of a row group.
    pub max_row_group_size: usize,
}

/// Rows that wait to be written together.
#[derive(Debug)]
pub struct BatchBuffer<T> {
    /// A flush is due once this many rows wait.
    pub batch_size: usize,
    pub rows: Vec<T>,
}

impl<T> BatchBuffer<T> {
    /// An empty buffer.
    pub fn new(batch_size: usize) -> (b: BatchBuffer<T>)
        ensures
            b.batch_size == batch_size,
            b.rows@.len() == 0,
    {
        BatchBuffer { batch_size, rows: Vec::new() }
    }

    /// The number of waiting rows.
    pub fn len(&self) -> (n: usize)
        ensures
            n == self.rows@.len(),
    {
        self.rows.len()
    }

    /// Whether no row waits.
    pub fn is_empty(&self) -> (r: bool)
        ensures
            r == (self.rows@.len() == 0),
    {
        self.rows.len() == 0
    }

    /// Sets the number of rows at which a flush is due.
    pub fn set_batch_size(&mut self, batch_size: usize)
        ensures
            final(self).batch_size == batch_size,
            final(self).rows == old(self).rows,
    {
        self.batch_size = batch_size;
    }

    /// Adds rows behind the waiting ones and says whether a flush is due:
    /// whether at least `batch_size` rows wait now.
    pub fn add(&mut self, rows: Vec<T>) -> (due: bool)
        ensures
            final(self).rows@ == old(self).rows@ + rows@,
            final(self).batch_size == old(self).batch_size,
            due == (old(self).rows@.len() + rows@.len() >= old(self).batch_size),
    {
        let mut rows = rows;
        self.rows.append(&mut rows);
        self.rows.len() >= self.batch_size
    }

    /// Hands out the waiting rows for writing; none wait afterwards.
    pub fn take(&mut self) -> (rows: Vec<T>)
        ensures
            rows@ == old(self).rows@,
            final(self).rows@.len() == 0,
            final(self).batch_size == old(self).batch_size,
    {
        let mut rows: Vec<T> = Vec::new();
        rows.append(&mut self.rows);
        rows
    }

    /// Takes back rows that could not be written: they wait again, in front
    /// of the rows that came since.
    pub fn restore(&mut self, rows: Vec<T>)
        ensures
            final(self).rows@ == rows@ + old(self).rows@,
            final(self).batch_size == old(self).batch_size,
    {
        let mut rows = rows;
        rows.append(&mut self.rows);
        self.rows = rows;
    }
}

/// The name of the file of a batch that is written at `secs` seconds after
/// the epoch: the prefix, an underscore, the calendar stamp of the instant
/// and the ending ".parquet". None where the instant has no calendar stamp.
pub open spec fn batch_file(prefix: Seq<char>, secs: int) -> Option<Seq<char>> {
    match utc_stamp(secs) {
        Some(stamp) => Some(prefix + seq!['_'] + stamp + ".parquet"@),
        None => None,
    }
}

/// The name of a file from its prefix and the calendar stamp of its instant.
pub open spec fn stamped_file(prefix: Seq<char>, stamp: Seq<char>, ending: Seq<char>) -> Seq<char> {
    prefix + seq!['_'] + stamp + ending
}

/// The name of a file from its prefix and the calendar stamp of its instant.
pub fn stamped_file_name(prefix: &str, stamp: &str, ending: &str) -> (name: String)
    ensures
        name@ == stamped_file(prefix@, stamp@, ending@),
{
    let mut out = char_vec(prefix);
    out.push('_');
    push_str_chars(&mut out, stamp);
    push_str_chars(&mut out, ending);
    string_of(&out)
}

/// The name of the file of a batch that is written at `secs` seconds after the epoch.
pub fn batch_file_name(prefix: &str, secs: i64) -> (name: Option<String>)
    ensures
        match name {
            Some(n) => batch_file(prefix@, secs as int) == Some(n@),
            None => batch_file(prefix@, secs as int) is None,
        },
{
    match format_utc_stamp(secs) {
        Some(stamp) => Some(stamped_file_name(prefix, stamp.as_str(), ".parquet")),
        None => None,
    }
}

/// The name under which a file is written before it gets its own: the name
/// with ".tmp.parquet" in place of what follows its last dot, or appended
/// where it has no dot.
pub open spec fn temporary_name(name: Seq<char>) -> Seq<char> {
    stem(name) + ".tmp.parquet"@
}

/// The name without its last dot and what follows it.
pub open spec fn stem(name: Seq<char>) -> Seq<char>
    decreases name.len(),
{
    if name.len() == 0 {
        name
    } else if name.last() == '.' {
        name.drop_last()
    } else if name.drop_last().contains('.') {
        stem(name.drop_last())
    } else {
        name
    }
}

/// The name under which a file is written before it gets its own.
pub fn temporary_file_name(name: &str) -> (temp: String)
    ensures
        temp@ == temporary_name(name@),
{
    let chars = char_vec(name);
    let mut cut: usize = chars.len();
    let mut found: bool = false;
    let mut k: usize = chars.len();
    while k > 0 && !found
        invariant
            k <= chars.len(),
            !found ==> forall|t: int| k <= t < chars.len() ==> chars@[t] != '.',
            !found ==> cut == chars.len(),
            found ==> cut < chars.len() && chars@[cut as int] == '.' && forall|t: int|
                cut < t < chars.len() ==> chars@[t] != '.',
        decreases k,
    {
        if chars[k - 1] == '.' {
            cut = k - 1;
            found = true;
        }
        k -= 1;
    }
    proof {
        if found {
            lemma_stem_cuts(chars@, cut as int);
        } else {
            lemma_stem_keeps(chars@);
        }
    }
    let mut out = crate::text::slice_chars(&chars, 0, cut);
    push_str_chars(&mut out, ".tmp.parquet");
    string_of(&out)
}

proof fn lemma_stem_keeps(name: Seq<char>)
    requires
        !name.contains('.'),
    ensures
        stem(name) == name,
{
    if name.len() > 0 {
        assert(name[name.len() - 1] != '.');
        if name.drop_last().contains('.') {
            let i = choose|i: int| 0 <= i < name.drop_last().len() && name.drop_last()[i] == '.';
            assert(name[i] == '.');
        }
    }
}

proof fn lemma_stem_cuts(name: Seq<char>, cut: int)
    requires
        0 <= cut < name.len(),
        name[cut] == '.',
        forall|t: int| cut < t < name.len() ==> name[t] != '.',
    ensures
        stem(name) == name.subrange(0, cut),
    decreases name.len(),
{
    if name.last() == '.' {
        assert(cut == name.len() - 1);
        assert(name.drop_last() =~= name.subrange(0, cut));
    } else {
        assert(name.drop_last()[cut] == '.');
        assert(name.drop_last().contains('.'));
        lemma_stem_cuts(name.drop_last(), cut);
        assert(name.drop_last().subrange(0, cut) =~= name.subrange(0, cut));
    }
}

/// What is stored for the notes of an event, given their number and what
/// they are as a JSON object: nothing for no notes, the empty text where
/// they could not be written.
pub open spec fn stored_notes_of(count: nat, json: Option<Seq<char>>) -> Option<Seq<char>> {
    if count == 0 {
        None
    } else {
        match json {
            Some(text) => Some(text),
            None => Some(Seq::empty()),
        }
    }
}

/// What is stored for notes of which there are `count` and which are
/// `json` as a JSON object.
pub fn stored_text(count: usize, json: Option<String>) -> (r: Option<String>)
    ensures
        option_view(r) == stored_notes_of(count as nat, option_view(json)),
{
    if count == 0 {
        None
    } else {
        match json {
            Some(text) => Some(text),
            None => Some(String::new()),
        }
    }
}

/// What is stored for the notes of an event.
pub fn stored_notes(notes: &Metadata) -> (r: Option<String>)
    ensures
        option_view(r) == stored_notes_of(notes@.len(), json_of_notes(merged(notes@))),
{
    stored_text(notes.len(), notes.to_json())
}

/// The notes that a stored text stands for, given what was read from it as
/// a JSON object: no notes where nothing was stored or the text could not
/// be read.
pub fn notes_or_none(read: Option<Metadata>) -> (m: Metadata)
    ensures
        m@ == (match read {
            Some(notes) => notes@,
            None => Seq::empty(),
        }),
{
    match read {
        Some(notes) => notes,
        None => Metadata::new(),
    }
}

/// The notes of a stored event.
pub fn read_notes(stored: Option<&str>) -> (m: Metadata)
    ensures
        m@ == (match stored {
            Some(text) => match notes_of_json(text@) {
                Some(notes) => notes,
                None => Seq::empty(),
            },
            None => Seq::empty(),
        }),
{
    match stored {
        Some(text) => notes_or_none(Metadata::from_json(text)),
        None => Metadata::new(),
    }
}

/// A batch on its way to a file.
#[derive(Debug)]
pub struct FlushJob<T> {
    /// The name of the file in the output directory.
    pub file_name: String,
    /// The name under which the file is written first.
    pub temp_name: String,
    pub rows: Vec<T>,
    /// Whether the file is encrypted before it gets its name.
    pub encrypt: bool,
}

/// Collects rows and hands them out in batches, one file for each.
#[derive(Debug)]
pub struct BatchWriter<T> {
    pub output_dir: String,
    /// What the names of the files begin with.
    pub prefix: &'static str,
    pub buffer: BatchBuffer<T>,
    pub settings: WriterSettings,
    pub encryption_enabled: bool,
    pub secure_writer: Option<EncryptionManager>,
}

/// The writer of the frame metadata.
pub type ParquetWriter = BatchWriter<FrameMetadata>;

/// The writer of the OCR results.
pub type OCRParquetWriter = BatchWriter<OCRResult>;

/// The writer of the events.
pub type EventParquetWriter = BatchWriter<DetectedEvent>;

impl<T> BatchWriter<T> {
    /// Whether nothing but the waiting rows differs between two states.
    pub open spec fn same_but_rows(&self, other: &BatchWriter<T>) -> bool {
        &&& self.output_dir == other.output_dir
        &&& self.prefix == other.prefix
        &&& self.buffer.batch_size == other.buffer.batch_size
        &&& self.settings == other.settings
        &&& self.encryption_enabled == other.encryption_enabled
        &&& self.secure_writer == other.secure_writer
    }

    /// Adds rows and says whether a flush is due.
    pub fn write(&mut self, rows: Vec<T>) -> (due: bool)
        ensures
            final(self).buffer.rows@ == old(self).buffer.rows@ + rows@,
            due == (old(self).buffer.rows@.len() + rows@.len() >= old(self).buffer.batch_size),
            final(self).same_but_rows(old(self)),
    {
        self.buffer.add(rows)
    }

    /// Begins the flush of the waiting rows at `now_secs` seconds after the
    /// epoch: hands them out with the name of their file. Nothing is handed
    /// out, and the rows keep waiting, where no row waits or the instant has
    /// no calendar stamp.
    pub fn begin_flush(&mut self, now_secs: i64) -> (job: Option<FlushJob<T>>)
        ensures
            final(self).same_but_rows(old(self)),
            match job {
                Some(j) => {
                    &&& old(self).buffer.rows@.len() > 0
                    &&& batch_file(old(self).prefix@, now_secs as int) == Some(j.file_name@)
                    &&& j.temp_name@ == temporary_name(j.file_name@)
                    &&& j.rows@ == old(self).buffer.rows@
                    &&& j.encrypt == old(self).encryption_enabled
                    &&& final(self).buffer.rows@.len() == 0
                },
                None => {
                    &&& old(self).buffer.rows@.len() == 0 || batch_file(
                        old(self).prefix@,
                        now_secs as int,
                    ) is None
                    &&& final(self).buffer.rows == old(self).buffer.rows
                },
            },
    {
        if self.buffer.is_empty() {
            return None;
        }
        match batch_file_name(self.prefix, now_secs) {
            Some(file_name) => {
                let temp_name = temporary_file_name(file_name.as_str());
                let rows = self.buffer.take();
                Some(FlushJob { file_name, temp_name, rows, encrypt: self.encryption_enabled })
            },
            None => None,
        }
    }

    /// Takes back the rows of a flush that failed: they wait again, in front
    /// of the rows that came since.
    pub fn abort_flush(&mut self, job: FlushJob<T>)
        ensures
            final(self).buffer.rows@ == job.rows@ + old(self).buffer.rows@,
            final(self).same_but_rows(old(self)),
    {
        self.buffer.restore(job.rows);
    }

    /// Begins the flush of what still waits, as `begin_flush` does.
    pub fn finalize(&mut self, now_secs: i64) -> (job: Option<FlushJob<T>>)
        ensures
            final(self).same_but_rows(old(self)),
            match job {
                Some(j) => {
                    &&& old(self).buffer.rows@.len() > 0
                    &&& batch_file(old(self).prefix@, now_secs as int) == Some(j.file_name@)
                    &&& j.temp_name@ == temporary_name(j.file_name@)
                    &&& j.rows@ == old(self).buffer.rows@
                    &&& j.encrypt == old(self).encryption_enabled
                    &&& final(self).buffer.rows@.len() == 0
                },
                None => {
                    &&& old(self).buffer.rows@.len() == 0 || batch_file(
                        old(self).prefix@,
                        now_secs as int,
                    ) is None
                    &&& final(self).buffer.rows == old(self).buffer.rows
                },
            },
    {
        self.begin_flush(now_secs)
    }

    pub fn set_batch_size(&mut self, batch_size: usize)
        ensures
            final(self).buffer.batch_size == batch_size,
            final(self).buffer.rows == old(self).buffer.rows,
            final(self).output_dir == old(self).output_dir,
            final(self).prefix == old(self).prefix,
            final(self).settings == old(self).settings,
            final(self).encryption_enabled == old(self).encryption_enabled,
            final(self).secure_writer == old(self).secure_writer,
    {
        self.buffer.set_batch_size(batch_size);
    }

    pub fn set_compression(&mut self, compression: Compression)
        ensures
            final(self).settings == (WriterSettings { compression, ..old(self).settings }),
            final(self).buffer == old(self).buffer,
            final(self).output_dir == old(self).output_dir,
            final(self).prefix == old(self).prefix,
            final(self).encryption_enabled == old(self).encryption_enabled,
            final(self).secure_writer == old(self).secure_writer,
    {
        self.settings.compression = compression;
    }

    pub fn set_dictionary_encoding(&mut self, enabled: bool)
        ensures
            final(self).settings == (WriterSettings {
                enable_dictionary_encoding: enabled,
                ..old(self).settings
            }),
            final(self).buffer == old(self).buffer,
            final(self).output_dir == old(self).output_dir,
            final(self).prefix == old(self).prefix,
            final(self).encryption_enabled == old(self).encryption_enabled,
            final(self).secure_writer == old(self).secure_writer,
    {
        self.settings.enable_dictionary_encoding = enabled;
    }

    pub fn get_output_dir(&self) -> (dir: &String)
        ensures
            dir == &self.output_dir,
    {
        &self.output_dir
    }

    /// Has the files encrypted with the given manager from now on.
    pub fn enable_encryption(&mut self, manager: EncryptionManager)
        ensures
            final(self).encryption_enabled,
            final(self).secure_writer == Some(manager),
            final(self).buffer == old(self).buffer,
            final(self).output_dir == old(self).output_dir,
            final(self).prefix == old(self).prefix,
            final(self).settings == old(self).settings,
    {
        self.secure_writer = Some(manager);
        self.encryption_enabled = true;
    }

    /// Has the files written in the clear from now on.
    pub fn disable_encryption(&mut self)
        ensures
            !final(self).encryption_enabled,
            final(self).secure_writer is None,
            final(self).buffer == old(self).buffer,
            final(self).output_dir == old(self).output_dir,
            final(self).prefix == old(self).prefix,
            final(self).settings == old(self).settings,
    {
        self.secure_writer = None;
        self.encryption_enabled = false;
    }

    pub fn is_encryption_enabled(&self) -> (r: bool)
        ensures
            r == self.encryption_enabled,
    {
        self.encryption_enabled
    }

    /// The bytes of a file as they are stored: as they are where encryption
    /// is off, encrypted where it is on.
    pub fn stored_bytes(&self, plain: Vec<u8>) -> (r: Result<Vec<u8>>)
        ensures
            !self.encryption_enabled ==> r is Ok && r->Ok_0 == plain,
            self.encryption_enabled && self.secure_writer is None ==> r is Err,
            self.encryption_enabled && self.secure_writer is Some && plain@.len()
                <= MAX_PLAINTEXT_LEN ==> r is Ok,
            self.encryption_enabled && r is Ok ==> self.secure_writer is Some && opens_to(
                self.secure_writer->Some_0.key@,
                r->Ok_0@,
                plain@,
            ),
    {
        if !self.encryption_enabled {
            return Ok(plain);
        }
        match &self.secure_writer {
            Some(manager) => match manager.encrypt(plain.as_slice()) {
                Ok(bytes) => Ok(bytes),
                Err(e) => Err(IndexerError::Encryption(e.to_string())),
            },
            None => Err(
                IndexerError::Encryption(
                    String::from_str("Encryption enabled but secure writer not initialized"),
                ),
            ),
        }
    }

    /// The bytes of a stored file in the clear.
    pub fn readable_bytes(&self, stored: Vec<u8>) -> (r: Result<Vec<u8>>)
        ensures
            !self.encryption_enabled ==> r is Ok && r->Ok_0 == stored,
            self.encryption_enabled && self.secure_writer is None ==> r is Err,
            self.encryption_enabled && r is Ok ==> self.secure_writer is Some && opens_to(
                self.secure_writer->Some_0.key@,
                stored@,
                r->Ok_0@,
            ),
            forall|p: Seq<u8>|
                self.encryption_enabled && self.secure_writer is Some && p.len() <= MAX_PLAINTEXT_LEN
                    && #[trigger] opens_to(self.secure_writer->Some_0.key@, stored@, p) ==> r is Ok
                    && r->Ok_0@ == p,
    {
        if !self.encryption_enabled {
            return Ok(stored);
        }
        match &self.secure_writer {
            Some(manager) => match manager.decrypt(stored.as_slice()) {
                Ok(bytes) => Ok(bytes),
                Err(e) => Err(IndexerError::Encryption(e.to_string())),
            },
            None => Err(
                IndexerError::Encryption(
                    String::from_str("Encryption enabled but secure writer not initialized"),
                ),
            ),
        }
    }
}

impl BatchWriter<FrameMetadata> {
    /// A writer of frame metadata: batches of 1000 rows, files that begin
    /// with "frames".
    pub fn new(output_dir: &str) -> (r: Result<ParquetWriter>)
        ensures
            r is Ok,
            r->Ok_0.output_dir@ == output_dir@,
            r->Ok_0.prefix@ == "frames"@,
            r->Ok_0.buffer.batch_size == 1000,
            r->Ok_0.buffer.rows@.len() == 0,
            !r->Ok_0.encryption_enabled,
            r->Ok_0.settings == (WriterSettings {
                compression: Compression::Snappy,
                enable_dictionary_encoding: true,
                write_batch_size: 1024,
                max_row_group_size: 10000,
            }),
    {
        Ok(
            BatchWriter {
                output_dir: String::from_str(output_dir),
                prefix: "frames",
                buffer: BatchBuffer::new(1000),
                settings: WriterSettings {
                    compression: Compression::Snappy,
                    enable_dictionary_encoding: true,
                    write_batch_size: 1024,
                    max_row_group_size: 10000,
                },
                encryption_enabled: false,
                secure_writer: None,
            },
        )
    }

    /// Adds rows and says whether a flush is due.
    pub fn write_frame_metadata(&mut self, metadata: Vec<FrameMetadata>) -> (due: bool)
        ensures
            final(self).buffer.rows@ == old(self).buffer.rows@ + metadata@,
            due == (old(self).buffer.rows@.len() + metadata@.len() >= old(self).buffer.batch_size),
            final(self).same_but_rows(old(self)),
    {
        self.write(metadata)
    }

    pub fn get_schema(&self) -> (v: Vec<ColumnSpec>)
        ensures
            v@ == frame_columns(),
    {
        frame_schema()
    }
}

impl BatchWriter<OCRResult> {
    /// A writer of OCR results: batches of 5000 rows, files that begin with "ocr".
    pub fn new(output_dir: &str) -> (r: Result<OCRParquetWriter>)
        ensures
            r is Ok,
            r->Ok_0.output_dir@ == output_dir@,
            r->Ok_0.prefix@ == "ocr"@,
            r->Ok_0.buffer.batch_size == 5000,
            r->Ok_0.buffer.rows@.len() == 0,
            !r->Ok_0.encryption_enabled,
            r->Ok_0.settings == (WriterSettings {
                compression: Compression::Snappy,
                enable_dictionary_encoding: true,
                write_batch_size: 2048,
                max_row_group_size: 50000,
            }),
    {
        Ok(
            BatchWriter {
                output_dir: String::from_str(output_dir),
                prefix: "ocr",
                buffer: BatchBuffer::new(5000),
                settings: WriterSettings {
                    compression: Compression::Snappy,
                    enable_dictionary_encoding: true,
                    write_batch_size: 2048,
                    max_row_group_size: 50000,
                },
                encryption_enabled: false,
                secure_writer: None,
            },
        )
    }

    /// Adds rows and says whether a flush is due.
    pub fn write_ocr_results(&mut self, results: Vec<OCRResult>) -> (due: bool)
        ensures
            final(self).buffer.rows@ == old(self).buffer.rows@ + results@,
            due == (old(self).buffer.rows@.len() + results@.len() >= old(self).buffer.batch_size),
            final(self).same_but_rows(old(self)),
    {
        self.write(results)
    }

    /// Adds the rows of a batch and says whether a flush is due.
    pub fn write_ocr_batch(&mut self, batch: crate::ocr::OCRBatch) -> (due: bool)
        ensures
            final(self).buffer.rows@ == old(self).buffer.rows@ + batch.results@,
            due == (old(self).buffer.rows@.len() + batch.results@.len() >= old(
                self,
            ).buffer.batch_size),
            final(self).same_but_rows(old(self)),
    {
        self.write(batch.results)
    }

    pub fn get_schema(&self) -> (v: Vec<ColumnSpec>)
        ensures
            v@ == ocr_columns(),
    {
        ocr_schema()
    }
}

impl BatchWriter<DetectedEvent> {
    /// A writer of events: batches of 1000 rows, files that begin with "events".
    pub fn new(output_dir: &str) -> (r: Result<EventParquetWriter>)
        ensures
            r is Ok,
            r->Ok_0.output_dir@ == output_dir@,
            r->Ok_0.prefix@ == "events"@,
            r->Ok_0.buffer.batch_size == 1000,
            r->Ok_0.buffer.rows@.len() == 0,
            !r->Ok_0.encryption_enabled,
            r->Ok_0.settings == (WriterSettings {
                compression: Compression::Snappy,
                enable_dictionary_encoding: true,
                write_batch_size: 1024,
                max_row_group_size: 10000,
            }),
    {
        Ok(
            BatchWriter {
                output_dir: String::from_str(output_dir),
                prefix: "events",
                buffer: BatchBuffer::new(1000),
                settings: WriterSettings {
                    compression: Compression::Snappy,
                    enable_dictionary_encoding: true,
                    write_batch_size: 1024,
                    max_row_group_size: 10000,
                },
                encryption_enabled: false,
                secure_writer: None,
            },
        )
    }

    /// Adds events and says whether a flush is due.
    pub fn write_events(&mut self, events: Vec<DetectedEvent>) -> (due: bool)
        ensures
            final(self).buffer.rows@ == old(self).buffer.rows@ + events@,
            due == (old(self).buffer.rows@.len() + events@.len() >= old(self).buffer.batch_size),
            final(self).same_but_rows(old(self)),
    {
        self.write(events)
    }

    /// Adds one event and says whether a flush is due.
    pub fn write_event(&mut self, event: DetectedEvent) -> (due: bool)
        ensures
            final(self).buffer.rows@ == old(self).buffer.rows@.push(event),
            due == (old(self).buffer.rows@.len() + 1 >= old(self).buffer.batch_size),
            final(self).same_but_rows(old(self)),
    {
        let mut one: Vec<DetectedEvent> = Vec::new();
        one.push(event);
        assert(old(self).buffer.rows@ + one@ =~= old(self).buffer.rows@.push(event));
        self.write(one)
    }

    pub fn get_schema(&self) -> (v: Vec<ColumnSpec>)
        ensures
            v@ == event_columns(),
    {
        event_schema()
    }

    /// The name under which a kind of event is stored.
    pub fn event_type_to_string(&self, event_type: &EventType) -> (s: &'static str)
        ensures
            s@ == event_type.spec_name(),
    {
        event_type.name()
    }

    /// The kind of event that a stored name stands for.
    pub fn string_to_event_type(&self, type_str: &str) -> (t: EventType)
        ensures
            t == EventType::spec_from_name(type_str@),
    {
        EventType::from_name(type_str)
    }
}

/// The orders in which the rows of a query come back.
#[derive(Clone, Copy, Debug, PartialEq, Eq, Structural)]
pub enum EventOrder {
    OldestFirst,
    NewestFirst,
    MostConfidentFirst,
}

/// The number by which events are ordered, least first.
pub open spec fn event_key(order: EventOrder) -> spec_fn(DetectedEvent) -> int {
    |e: DetectedEvent|
        match order {
            EventOrder::OldestFirst => e.timestamp as int,
            EventOrder::NewestFirst => -(e.timestamp as int),
            EventOrder::MostConfidentFirst => -(e.confidence as int),
        }
}

/// The number by which OCR results are ordered: the most confident first.
pub open spec fn ocr_key() -> spec_fn(OCRResult) -> int {
    |r: OCRResult| -(r.confidence as int)
}

fn key_of_event(e: &DetectedEvent, order: EventOrder) -> (k: i128)
    ensures
        k as int == event_key(order)(*e),
{
    match order {
        EventOrder::OldestFirst => e.timestamp as i128,
        EventOrder::NewestFirst => -(e.timestamp as i128),
        EventOrder::MostConfidentFirst => -(e.confidence as i128),
    }
}

/// The events in the given order; events that the order does not tell
/// apart keep the order in which they came.
pub fn order_events(events: Vec<DetectedEvent>, order: EventOrder) -> (r: Vec<DetectedEvent>)
    ensures
        r@ == ordered_by(events@, event_key(order)),
{
    let ghost all = events@;
    let ghost key = event_key(order);
    let mut out: Vec<DetectedEvent> = Vec::new();
    assert(all.take(0) =~= Seq::<DetectedEvent>::empty());
    for item in it: events
        invariant
            it.seq() == all,
            key == event_key(order),
            out@ == ordered_by(all.take(it.index()), key),
    {
        let ghost done = out@;
        let ghost i = it.index();
        assert(all.take(i + 1).drop_last() =~= all.take(i));
        let k = key_of_event(&item, order);
        let mut p: usize = out.len();
        assert(done.take(p as int) =~= done);
        while p > 0 && key_of_event(&out[p - 1], order) > k
            invariant
                p <= out.len(),
                out@ == done,
                key == event_key(order),
                k as int == key(item),
                place_for(done, key, k as int) == place_for(done.take(p as int), key, k as int),
            decreases p,
        {
            assert(done.take(p as int).drop_last() =~= done.take(p - 1));
            p -= 1;
        }
        assert(place_for(done, key, k as int) == p);
        out.insert(p, item);
    }
    assert(all.take(all.len() as int) =~= all);
    out
}

/// The results with the most confident first; results of the same
/// confidence keep the order in which they came.
pub fn order_ocr_results(results: Vec<OCRResult>) -> (r: Vec<OCRResult>)
    ensures
        r@ == ordered_by(results@, ocr_key()),
{
    let ghost all = results@;
    let ghost key = ocr_key();
    let mut out: Vec<OCRResult> = Vec::new();
    assert(all.take(0) =~= Seq::<OCRResult>::empty());
    for item in it: results
        invariant
            it.seq() == all,
            key == ocr_key(),
            out@ == ordered_by(all.take(it.index()), key),
    {
        let ghost done = out@;
        let ghost i = it.index();
        assert(all.take(i + 1).drop_last() =~= all.take(i));
        let k: i64 = -(item.confidence as i64);
        let mut p: usize = out.len();
        assert(done.take(p as int) =~= done);
        while p > 0 && -(out[p - 1].confidence as i64) > k
            invariant
                p <= out.len(),
                out@ == done,
                key == ocr_key(),
                k as int == key(item),
                place_for(done, key, k as int) == place_for(done.take(p as int), key, k as int),
            decreases p,
        {
            assert(done.take(p as int).drop_last() =~= done.take(p - 1));
            p -= 1;
        }
        assert(place_for(done, key, k as int) == p);
        out.insert(p, item);
    }
    assert(all.take(all.len() as int) =~= all);
    out
}

/// The predicates by which events are selected.
pub open spec fn has_type(t: EventType) -> spec_fn(DetectedEvent) -> bool {
    |e: DetectedEvent| e.event_type == t
}

/// Whether an event is about the given target.
pub open spec fn has_target(target: Seq<char>) -> spec_fn(DetectedEvent) -> bool {
    |e: DetectedEvent| e.target@ == target
}

/// Whether an event has at least the given confidence.
pub open spec fn event_at_least(min_confidence: u32) -> spec_fn(DetectedEvent) -> bool {
    |e: DetectedEvent| e.confidence >= min_confidence
}

/// Whether an event lies between the two instants, both included.
pub open spec fn event_within(start: i64, end: i64) -> spec_fn(DetectedEvent) -> bool {
    |e: DetectedEvent| start <= e.timestamp <= end
}

/// The predicates by which OCR results are selected.
pub open spec fn of_frame(frame_id: Seq<char>) -> spec_fn(OCRResult) -> bool {
    |r: OCRResult| r.frame_id@ == frame_id
}

/// Whether a text region is in the given language.
pub open spec fn in_language(language: Seq<char>) -> spec_fn(OCRResult) -> bool {
    |r: OCRResult| r.language@ == language
}

/// Whether a text region has at least the given confidence.
pub open spec fn ocr_at_least(min_confidence: u32) -> spec_fn(OCRResult) -> bool {
    |r: OCRResult| r.confidence >= min_confidence
}

/// Whether the text of a result holds the wanted text, given in lower
/// case, when it is put in lower case itself.
pub open spec fn mentions(lowered_needle: Seq<char>) -> spec_fn(OCRResult) -> bool {
    |r: OCRResult| spec_contains(lowercase_of(r.text@), lowered_needle)
}

impl BatchWriter<DetectedEvent> {
    /// The events of the given kind, the newest first.
    pub fn query_by_type(rows: Vec<DetectedEvent>, event_type: &EventType) -> (r: Vec<DetectedEvent>)
        ensures
            r@ == ordered_by(keep_if(rows@, has_type(*event_type)), event_key(EventOrder::NewestFirst)),
    {
        let ghost all = rows@;
        let ghost keep = has_type(*event_type);
        let mut kept: Vec<DetectedEvent> = Vec::new();
        assert(all.take(0) =~= Seq::<DetectedEvent>::empty());
        for item in it: rows
            invariant
                it.seq() == all,
                keep == has_type(*event_type),
                kept@ == keep_if(all.take(it.index()), keep),
        {
            proof {
                lemma_keep_if_step(all, keep, it.index());
            }
            if item.event_type == *event_type {
                kept.push(item);
            }
        }
        assert(all.take(all.len() as int) =~= all);
        order_events(kept, EventOrder::NewestFirst)
    }

    /// The events about the given target, the newest first.
    pub fn query_by_target(rows: Vec<DetectedEvent>, target: &str) -> (r: Vec<DetectedEvent>)
        ensures
            r@ == ordered_by(keep_if(rows@, has_target(target@)), event_key(EventOrder::NewestFirst)),
    {
        let ghost all = rows@;
        let ghost keep = has_target(target@);
        let mut kept: Vec<DetectedEvent> = Vec::new();
        assert(all.take(0) =~= Seq::<DetectedEvent>::empty());
        for item in it: rows
            invariant
                it.seq() == all,
                keep == has_target(target@),
                kept@ == keep_if(all.take(it.index()), keep),
        {
            proof {
                lemma_keep_if_step(all, keep, it.index());
            }
            if str_eq(item.target.as_str(), target) {
                kept.push(item);
            }
        }
        assert(all.take(all.len() as int) =~= all);
        order_events(kept, EventOrder::NewestFirst)
    }

    /// The events whose confidence is at least `min_confidence`, the most
    /// confident first.
    pub fn query_by_confidence(rows: Vec<DetectedEvent>, min_confidence: u32) -> (r: Vec<
        DetectedEvent,
    >)
        ensures
            r@ == ordered_by(
                keep_if(rows@, event_at_least(min_confidence)),
                event_key(EventOrder::MostConfidentFirst),
            ),
    {
        let ghost all = rows@;
        let ghost keep = event_at_least(min_confidence);
        let mut kept: Vec<DetectedEvent> = Vec::new();
        assert(all.take(0) =~= Seq::<DetectedEvent>::empty());
        for item in it: rows
            invariant
                it.seq() == all,
                keep == event_at_least(min_confidence),
                kept@ == keep_if(all.take(it.index()), keep),
        {
            proof {
                lemma_keep_if_step(all, keep, it.index());
            }
            if item.confidence >= min_confidence {
                kept.push(item);
            }
        }
        assert(all.take(all.len() as int) =~= all);
        order_events(kept, EventOrder::MostConfidentFirst)
    }

    /// The events between the two instants, both included, the oldest first.
    pub fn query_by_time_range(rows: Vec<DetectedEvent>, start_time: i64, end_time: i64) -> (r: Vec<
        DetectedEvent,
    >)
        ensures
            r@ == ordered_by(
                keep_if(rows@, event_within(start_time, end_time)),
                event_key(EventOrder::OldestFirst),
            ),
    {
        let ghost all = rows@;
        let ghost keep = event_within(start_time, end_time);
        let mut kept: Vec<DetectedEvent> = Vec::new();
        assert(all.take(0) =~= Seq::<DetectedEvent>::empty());
        for item in it: rows
            invariant
                it.seq() == all,
                keep == event_within(start_time, end_time),
                kept@ == keep_if(all.take(it.index()), keep),
        {
            proof {
                lemma_keep_if_step(all, keep, it.index());
            }
            if start_time <= item.timestamp && item.timestamp <= end_time {
                kept.push(item);
            }
        }
        assert(all.take(all.len() as int) =~= all);
        order_events(kept, EventOrder::OldestFirst)
    }
}

impl BatchWriter<OCRResult> {
    /// The results of the given frame, in the order in which they are stored.
    pub fn query_by_frame_id(rows: Vec<OCRResult>, frame_id: &str) -> (r: Vec<OCRResult>)
        ensures
            r@ == keep_if(rows@, of_frame(frame_id@)),
    {
        let ghost all = rows@;
        let ghost keep = of_frame(frame_id@);
        let mut kept: Vec<OCRResult> = Vec::new();
        assert(all.take(0) =~= Seq::<OCRResult>::empty());
        for item in it: rows
            invariant
                it.seq() == all,
                keep == of_frame(frame_id@),
                kept@ == keep_if(all.take(it.index()), keep),
        {
            proof {
                lemma_keep_if_step(all, keep, it.index());
            }
            if str_eq(item.frame_id.as_str(), frame_id) {
                kept.push(item);
            }
        }
        assert(all.take(all.len() as int) =~= all);
        kept
    }

    /// The results in the given language, in the order in which they are stored.
    pub fn query_by_language(rows: Vec<OCRResult>, language: &str) -> (r: Vec<OCRResult>)
        ensures
            r@ == keep_if(rows@, in_language(language@)),
    {
        let ghost all = rows@;
        let ghost keep = in_language(language@);
        let mut kept: Vec<OCRResult> = Vec::new();
        assert(all.take(0) =~= Seq::<OCRResult>::empty());
        for item in it: rows
            invariant
                it.seq() == all,
                keep == in_language(language@),
                kept@ == keep_if(all.take(it.index()), keep),
        {
            proof {
                lemma_keep_if_step(all, keep, it.index());
            }
            if str_eq(item.language.as_str(), language) {
                kept.push(item);
            }
        }
        assert(all.take(all.len() as int) =~= all);
        kept
    }

    /// The results whose confidence is at least `min_confidence`, the most
    /// confident first.
    pub fn query_by_confidence(rows: Vec<OCRResult>, min_confidence: u32) -> (r: Vec<OCRResult>)
        ensures
            r@ == ordered_by(keep_if(rows@, ocr_at_least(min_confidence)), ocr_key()),
    {
        let ghost all = rows@;
        let ghost keep = ocr_at_least(min_confidence);
        let mut kept: Vec<OCRResult> = Vec::new();
        assert(all.take(0) =~= Seq::<OCRResult>::empty());
        for item in it: rows
            invariant
                it.seq() == all,
                keep == ocr_at_least(min_confidence),
                kept@ == keep_if(all.take(it.index()), keep),
        {
            proof {
                lemma_keep_if_step(all, keep, it.index());
            }
            if item.confidence >= min_confidence {
                kept.push(item);
            }
        }
        assert(all.take(all.len() as int) =~= all);
        order_ocr_results(kept)
    }

    /// The results whose text holds `lowered_needle` when it is put in
    /// lower case, the most confident first.
    pub fn query_by_lowered_text(rows: Vec<OCRResult>, lowered_needle: &str) -> (r: Vec<OCRResult>)
        ensures
            r@ == ordered_by(keep_if(rows@, mentions(lowered_needle@)), ocr_key()),
    {
        let ghost all = rows@;
        let ghost keep = mentions(lowered_needle@);
        let needle = char_vec(lowered_needle);
        let mut kept: Vec<OCRResult> = Vec::new();
        assert(all.take(0) =~= Seq::<OCRResult>::empty());
        for item in it: rows
            invariant
                it.seq() == all,
                needle@ == lowered_needle@,
                keep == mentions(lowered_needle@),
                kept@ == keep_if(all.take(it.index()), keep),
        {
            proof {
                lemma_keep_if_step(all, keep, it.index());
            }
            let lowered = to_lowercase(item.text.as_str());
            if contains(&char_vec(lowered.as_str()), &needle) {
                kept.push(item);
            }
        }
        assert(all.take(all.len() as int) =~= all);
        order_ocr_results(kept)
    }

    /// The results whose text holds `search_text`, whatever the case of the
    /// letters, the most confident first.
    pub fn query_by_text(rows: Vec<OCRResult>, search_text: &str) -> (r: Vec<OCRResult>)
        ensures
            r@ == ordered_by(keep_if(rows@, mentions(lowercase_of(search_text@))), ocr_key()),
    {
        let lowered = to_lowercase(search_text);
        BatchWriter::<OCRResult>::query_by_lowered_text(rows, lowered.as_str())
    }
}

/// A query for the events of at least confidence 0 returns as many rows
/// as were stored.
pub proof fn lemma_confidence_query_returns_all(rows: Seq<DetectedEvent>)
    ensures
        ordered_by(keep_if(rows, event_at_least(0)), event_key(EventOrder::MostConfidentFirst)).len()
            == rows.len(),
{
    lemma_keep_all(rows, event_at_least(0));
    lemma_ordered_by(rows, event_key(EventOrder::MostConfidentFirst));
}

/// A query by kind returns exactly the events of that kind: each event of
/// the kind that was stored, as often as it was stored, and nothing else.
pub proof fn lemma_type_query_is_exact(rows: Seq<DetectedEvent>, t: EventType)
    ensures
        ordered_by(keep_if(rows, has_type(t)), event_key(EventOrder::NewestFirst)).to_multiset()
            =~= keep_if(rows, has_type(t)).to_multiset(),
        forall|e: DetectedEvent|
            #[trigger] ordered_by(keep_if(rows, has_type(t)), event_key(EventOrder::NewestFirst))
                .contains(e) <==> (rows.contains(e) && e.event_type == t),
{
    broadcast use vstd::seq_lib::group_to_multiset_ensures;

    let kept = keep_if(rows, has_type(t));
    let out = ordered_by(kept, event_key(EventOrder::NewestFirst));
    lemma_ordered_by(kept, event_key(EventOrder::NewestFirst));
    crate::seqs::lemma_keep_if_members(rows, has_type(t));
    assert forall|e: DetectedEvent| #[trigger] out.contains(e) <==> (rows.contains(e) && e.event_type
        == t) by {
        assert(out.contains(e) <==> out.to_multiset().count(e) > 0);
        assert(kept.contains(e) <==> kept.to_multiset().count(e) > 0);
    }
}

} // verus!
