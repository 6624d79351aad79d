//! Rows as columns of plain values, as the columnar files hold them.
//!
//! A batch is written column by column and read back column by column. The
//! columns here hold, for each of the three kinds of rows, one cell for each
//! row and column of the schema; what a cell holds for a row, and what row
//! the cells of a position stand for, is stated row by row.

use vstd::prelude::*;
use crate::csv_writer::{row_view, row_views, FrameRow};
use crate::events::{DetectedEvent, DetectedEventView, EventType};
use crate::geometry::BoundingBox;
use crate::keyvalue::{json_of_notes, merged, notes_of_json};
use crate::metadata_collector::FrameMetadata;
use crate::ocr::OCRResult;
use crate::storage::{read_notes, stored_notes, stored_notes_of};
use crate::text::{clone_option, clone_strings, option_view, string_views};

verus! {

/// The columns of a batch of frame metadata.
#[derive(Debug)]
pub struct FrameColumns {
    pub ts_ns: Vec<i64>,
    pub monitor_id: Vec<i32>,
    pub segment_id: Vec<String>,
    pub path: Vec<String>,
    pub phash16: Vec<i64>,
    /// In millionths of a bit.
    pub entropy: Vec<u32>,
    pub app_name: Vec<String>,
    pub win_title: Vec<String>,
    pub width: Vec<u32>,
    pub height: Vec<u32>,
}

impl FrameColumns {
    /// Whether every column has `n` cells.
    pub open spec fn has_rows(&self, n: nat) -> bool {
        &&& self.ts_ns@.len() == n
        &&& self.monitor_id@.len() == n
        &&& self.segment_id@.len() == n
        &&& self.path@.len() == n
        &&& self.phash16@.len() == n
        &&& self.entropy@.len() == n
        &&& self.app_name@.len() == n
        &&& self.win_title@.len() == n
        &&& self.width@.len() == n
        &&& self.height@.len() == n
    }

    /// The row that the cells at position `i` stand for.
    pub open spec fn row_at(&self, i: int) -> FrameRow {
        FrameRow {
            ts_ns: self.ts_ns@[i],
            monitor_id: self.monitor_id@[i],
            segment_id: self.segment_id@[i]@,
            path: self.path@[i]@,
            phash16: self.phash16@[i],
            entropy: self.entropy@[i],
            app_name: self.app_name@[i]@,
            win_title: self.win_title@[i]@,
            width: self.width@[i],
            height: self.height@[i],
        }
    }

    /// Whether the columns hold the rows, in order.
    pub open spec fn holds(&self, rows: Seq<FrameMetadata>) -> bool {
        &&& self.has_rows(rows.len())
        &&& forall|i: int| 0 <= i < rows.len() ==> #[trigger] self.row_at(i) == row_view(rows[i])
    }

    /// Columns without rows.
    pub fn new() -> (c: FrameColumns)
        ensures
            c.has_rows(0),
    {
        FrameColumns {
            ts_ns: Vec::new(),
            monitor_id: Vec::new(),
            segment_id: Vec::new(),
            path: Vec::new(),
            phash16: Vec::new(),
            entropy: Vec::new(),
            app_name: Vec::new(),
            win_title: Vec::new(),
            width: Vec::new(),
            height: Vec::new(),
        }
    }

    /// The columns of the rows.
    pub fn of_rows(rows: &Vec<FrameMetadata>) -> (c: FrameColumns)
        ensures
            c.holds(rows@),
    {
        let mut c = FrameColumns::new();
        let mut i: usize = 0;
        while i < rows.len()
            invariant
                i <= rows.len(),
                c.has_rows(i as nat),
                forall|k: int| 0 <= k < i ==> #[trigger] c.row_at(k) == row_view(rows@[k]),
            decreases rows.len() - i,
        {
            let ghost before = c;
            let row = &rows[i];
            c.ts_ns.push(row.ts_ns);
            c.monitor_id.push(row.monitor_id);
            c.segment_id.push(row.segment_id.clone());
            c.path.push(row.path.clone());
            c.phash16.push(row.phash16);
            c.entropy.push(row.entropy);
            c.app_name.push(row.app_name.clone());
            c.win_title.push(row.win_title.clone());
            c.width.push(row.width);
            c.height.push(row.height);
            assert forall|k: int| 0 <= k < i + 1 implies #[trigger] c.row_at(k) == row_view(rows@[k]) by {
                if k < i {
                    assert(c.row_at(k) == before.row_at(k));
                }
            }
            i += 1;
        }
        c
    }

    /// The rows that the columns hold; none where the columns differ in
    /// their numbers of cells.
    pub fn rows(&self) -> (r: Option<Vec<FrameMetadata>>)
        ensures
            match r {
                Some(rows) => self.holds(rows@),
                None => !self.has_rows(self.ts_ns@.len()),
            },
    {
        let n = self.ts_ns.len();
        if self.monitor_id.len() != n || self.segment_id.len() != n || self.path.len() != n
            || self.phash16.len() != n || self.entropy.len() != n || self.app_name.len() != n
            || self.win_title.len() != n || self.width.len() != n || self.height.len() != n {
            return None;
        }
        let mut rows: Vec<FrameMetadata> = Vec::new();
        let mut i: usize = 0;
        while i < n
            invariant
                i <= n,
                n == self.ts_ns@.len(),
                self.has_rows(n as nat),
                rows@.len() == i,
                forall|k: int| 0 <= k < i ==> #[trigger] self.row_at(k) == row_view(rows@[k]),
            decreases n - i,
        {
            rows.push(
                FrameMetadata {
                    ts_ns: self.ts_ns[i],
                    monitor_id: self.monitor_id[i],
                    segment_id: self.segment_id[i].clone(),
                    path: self.path[i].clone(),
                    phash16: self.phash16[i],
                    entropy: self.entropy[i],
                    app_name: self.app_name[i].clone(),
                    win_title: self.win_title[i].clone(),
                    width: self.width[i],
                    height: self.height[i],
                },
            );
            i += 1;
        }
        Some(rows)
    }
}

/// A text region as a value.
pub struct RegionRow {
    pub frame_id: Seq<char>,
    pub roi: BoundingBox,
    pub text: Seq<char>,
    pub language: Seq<char>,
    pub confidence: u32,
    pub processed_at: i64,
    pub processor: Seq<char>,
}

/// The text region as a value.
pub open spec fn region_view(r: OCRResult) -> RegionRow {
    RegionRow {
        frame_id: r.frame_id@,
        roi: r.roi,
        text: r.text@,
        language: r.language@,
        confidence: r.confidence,
        processed_at: r.processed_at,
        processor: r.processor@,
    }
}

/// The columns of a batch of OCR results. The four columns of the region
/// are the fields of the one column `roi` of the schema.
#[derive(Debug)]
pub struct OcrColumns {
    pub frame_id: Vec<String>,
    pub roi_x: Vec<i32>,
    pub roi_y: Vec<i32>,
    pub roi_width: Vec<u32>,
    pub roi_height: Vec<u32>,
    pub text: Vec<String>,
    pub language: Vec<String>,
    /// In millionths.
    pub confidence: Vec<u32>,
    /// In nanoseconds since the epoch.
    pub processed_at: Vec<i64>,
    pub processor: Vec<String>,
}

impl OcrColumns {
    /// Whether every column has `n` cells.
    pub open spec fn has_rows(&self, n: nat) -> bool {
        &&& self.frame_id@.len() == n
        &&& self.roi_x@.len() == n
        &&& self.roi_y@.len() == n
        &&& self.roi_width@.len() == n
        &&& self.roi_height@.len() == n
        &&& self.text@.len() == n
        &&& self.language@.len() == n
        &&& self.confidence@.len() == n
        &&& self.processed_at@.len() == n
        &&& self.processor@.len() == n
    }

    /// The text region that the cells at position `i` stand for.
    pub open spec fn row_at(&self, i: int) -> RegionRow {
        RegionRow {
            frame_id: self.frame_id@[i]@,
            roi: BoundingBox {
                x: self.roi_x@[i],
                y: self.roi_y@[i],
                width: self.roi_width@[i],
                height: self.roi_height@[i],
            },
            text: self.text@[i]@,
            language: self.language@[i]@,
            confidence: self.confidence@[i],
            processed_at: self.processed_at@[i],
            processor: self.processor@[i]@,
        }
    }

    /// Whether the columns hold the text regions, in order.
    pub open spec fn holds(&self, rows: Seq<OCRResult>) -> bool {
        &&& self.has_rows(rows.len())
        &&& forall|i: int| 0 <= i < rows.len() ==> #[trigger] self.row_at(i) == region_view(rows[i])
    }

    /// Columns without rows.
    pub fn new() -> (c: OcrColumns)
        ensures
            c.has_rows(0),
    {
        OcrColumns {
            frame_id: Vec::new(),
            roi_x: Vec::new(),
            roi_y: Vec::new(),
            roi_width: Vec::new(),
            roi_height: Vec::new(),
            text: Vec::new(),
            language: Vec::new(),
            confidence: Vec::new(),
            processed_at: Vec::new(),
            processor: Vec::new(),
        }
    }

    /// The columns of the text regions.
    pub fn of_rows(rows: &Vec<OCRResult>) -> (c: OcrColumns)
        ensures
            c.holds(rows@),
    {
        let mut c = OcrColumns::new();
        let mut i: usize = 0;
        while i < rows.len()
            invariant
                i <= rows.len(),
                c.has_rows(i as nat),
                forall|k: int| 0 <= k < i ==> #[trigger] c.row_at(k) == region_view(rows@[k]),
            decreases rows.len() - i,
        {
            let ghost before = c;
            let row = &rows[i];
            c.frame_id.push(row.frame_id.clone());
            c.roi_x.push(row.roi.x);
            c.roi_y.push(row.roi.y);
            c.roi_width.push(row.roi.width);
            c.roi_height.push(row.roi.height);
            c.text.push(row.text.clone());
            c.language.push(row.language.clone());
            c.confidence.push(row.confidence);
            c.processed_at.push(row.processed_at);
            c.processor.push(row.processor.clone());
            assert forall|k: int| 0 <= k < i + 1 implies #[trigger] c.row_at(k) == region_view(rows@[k]) by {
                if k < i {
                    assert(c.row_at(k) == before.row_at(k));
                }
            }
            i += 1;
        }
        c
    }

    /// The text regions that the columns hold; none where the columns
    /// differ in their numbers of cells.
    pub fn rows(&self) -> (r: Option<Vec<OCRResult>>)
        ensures
            match r {
                Some(rows) => self.holds(rows@),
                None => !self.has_rows(self.frame_id@.len()),
            },
    {
        let n = self.frame_id.len();
        if self.roi_x.len() != n || self.roi_y.len() != n || self.roi_width.len() != n
            || self.roi_height.len() != n || self.text.len() != n || self.language.len() != n
            || self.confidence.len() != n || self.processed_at.len() != n || self.processor.len() != n {
            return None;
        }
        let mut rows: Vec<OCRResult> = Vec::new();
        let mut i: usize = 0;
        while i < n
            invariant
                i <= n,
                n == self.frame_id@.len(),
                self.has_rows(n as nat),
                rows@.len() == i,
                forall|k: int| 0 <= k < i ==> #[trigger] self.row_at(k) == region_view(rows@[k]),
            decreases n - i,
        {
            rows.push(
                OCRResult {
                    frame_id: self.frame_id[i].clone(),
                    roi: BoundingBox {
                        x: self.roi_x[i],
                        y: self.roi_y[i],
                        width: self.roi_width[i],
                        height: self.roi_height[i],
                    },
                    text: self.text[i].clone(),
                    language: self.language[i].clone(),
                    confidence: self.confidence[i],
                    processed_at: self.processed_at[i],
                    processor: self.processor[i].clone(),
                },
            );
            i += 1;
        }
        Some(rows)
    }
}

/// The cells of an event as values.
pub struct EventCells {
    pub event_id: Seq<char>,
    pub ts_ns: i64,
    pub kind: Seq<char>,
    pub target: Seq<char>,
    pub value_from: Option<Seq<char>>,
    pub value_to: Option<Seq<char>>,
    pub confidence: u32,
    pub evidence_frames: Seq<Seq<char>>,
    pub metadata: Option<Seq<char>>,
}

/// The cells that are written for an event: its kind by its name, its
/// notes as a JSON object.
pub open spec fn cells_of(e: DetectedEventView) -> EventCells {
    EventCells {
        event_id: e.id,
        ts_ns: e.timestamp,
        kind: e.event_type.spec_name(),
        target: e.target,
        value_from: e.value_from,
        value_to: e.value_to,
        confidence: e.confidence,
        evidence_frames: e.evidence_frames,
        metadata: stored_notes_of(e.metadata.len(), json_of_notes(merged(e.metadata))),
    }
}

/// The event that is read from cells: its kind by the name, its notes
/// from the JSON object, none where there is no such object.
pub open spec fn event_of(cells: EventCells) -> DetectedEventView {
    DetectedEventView {
        id: cells.event_id,
        timestamp: cells.ts_ns,
        event_type: EventType::spec_from_name(cells.kind),
        target: cells.target,
        value_from: cells.value_from,
        value_to: cells.value_to,
        confidence: cells.confidence,
        evidence_frames: cells.evidence_frames,
        metadata: match cells.metadata {
            Some(text) => match notes_of_json(text) {
                Some(notes) => notes,
                None => Seq::empty(),
            },
            None => Seq::empty(),
        },
    }
}

/// The columns of a batch of events.
#[derive(Debug)]
pub struct EventColumns {
    pub event_id: Vec<String>,
    /// In nanoseconds since the epoch.
    pub ts_ns: Vec<i64>,
    /// The names of the kinds.
    pub kind: Vec<String>,
    pub target: Vec<String>,
    pub value_from: Vec<Option<String>>,
    pub value_to: Vec<Option<String>>,
    /// In millionths.
    pub confidence: Vec<u32>,
    pub evidence_frames: Vec<Vec<String>>,
    /// The notes as JSON objects.
    pub metadata: Vec<Option<String>>,
}

impl EventColumns {
    /// Whether every column has `n` cells.
    pub open spec fn has_rows(&self, n: nat) -> bool {
        &&& self.event_id@.len() == n
        &&& self.ts_ns@.len() == n
        &&& self.kind@.len() == n
        &&& self.target@.len() == n
        &&& self.value_from@.len() == n
        &&& self.value_to@.len() == n
        &&& self.confidence@.len() == n
        &&& self.evidence_frames@.len() == n
        &&& self.metadata@.len() == n
    }

    /// The cells at position `i`.
    pub open spec fn cells_at(&self, i: int) -> EventCells {
        EventCells {
            event_id: self.event_id@[i]@,
            ts_ns: self.ts_ns@[i],
            kind: self.kind@[i]@,
            target: self.target@[i]@,
            value_from: option_view(self.value_from@[i]),
            value_to: option_view(self.value_to@[i]),
            confidence: self.confidence@[i],
            evidence_frames: string_views(self.evidence_frames@[i]@),
            metadata: option_view(self.metadata@[i]),
        }
    }

    /// Whether the columns hold what is written for the events, in order.
    pub open spec fn holds(&self, events: Seq<DetectedEvent>) -> bool {
        &&& self.has_rows(events.len())
        &&& forall|i: int| 0 <= i < events.len() ==> #[trigger] self.cells_at(i) == cells_of(events[i]@)
    }

    /// Whether the events are those that are read from the columns, in order.
    pub open spec fn gives(&self, events: Seq<DetectedEvent>) -> bool {
        &&& self.has_rows(events.len())
        &&& forall|i: int| 0 <= i < events.len() ==> (#[trigger] events[i])@ == event_of(self.cells_at(i))
    }

    /// Columns without rows.
    pub fn new() -> (c: EventColumns)
        ensures
            c.has_rows(0),
    {
        EventColumns {
            event_id: Vec::new(),
            ts_ns: Vec::new(),
            kind: Vec::new(),
            target: Vec::new(),
            value_from: Vec::new(),
            value_to: Vec::new(),
            confidence: Vec::new(),
            evidence_frames: Vec::new(),
            metadata: Vec::new(),
        }
    }

    /// The columns that are written for the events.
    pub fn of_rows(events: &Vec<DetectedEvent>) -> (c: EventColumns)
        ensures
            c.holds(events@),
    {
        let mut c = EventColumns::new();
        let mut i: usize = 0;
        while i < events.len()
            invariant
                i <= events.len(),
                c.has_rows(i as nat),
                forall|k: int| 0 <= k < i ==> #[trigger] c.cells_at(k) == cells_of(events@[k]@),
            decreases events.len() - i,
        {
            let ghost before = c;
            let e = &events[i];
            c.event_id.push(e.id.clone());
            c.ts_ns.push(e.timestamp);
            c.kind.push(String::from_str(e.event_type.name()));
            c.target.push(e.target.clone());
            c.value_from.push(clone_option(&e.value_from));
            c.value_to.push(clone_option(&e.value_to));
            c.confidence.push(e.confidence);
            c.evidence_frames.push(clone_strings(&e.evidence_frames));
            c.metadata.push(stored_notes(&e.metadata));
            assert forall|k: int| 0 <= k < i + 1 implies #[trigger] c.cells_at(k) == cells_of(
                events@[k]@,
            ) by {
                if k < i {
                    assert(c.cells_at(k) == before.cells_at(k));
                }
            }
            i += 1;
        }
        c
    }

    /// The events that are read from the columns; none where the columns
    /// differ in their numbers of cells.
    pub fn rows(&self) -> (r: Option<Vec<DetectedEvent>>)
        ensures
            match r {
                Some(events) => self.gives(events@),
                None => !self.has_rows(self.event_id@.len()),
            },
    {
        let n = self.event_id.len();
        if self.ts_ns.len() != n || self.kind.len() != n || self.target.len() != n
            || self.value_from.len() != n || self.value_to.len() != n || self.confidence.len() != n
            || self.evidence_frames.len() != n || self.metadata.len() != n {
            return None;
        }
        let mut events: Vec<DetectedEvent> = Vec::new();
        let mut i: usize = 0;
        while i < n
            invariant
                i <= n,
                n == self.event_id@.len(),
                self.has_rows(n as nat),
                events@.len() == i,
                forall|k: int| 0 <= k < i ==> (#[trigger] events@[k])@ == event_of(self.cells_at(k)),
            decreases n - i,
        {
            let notes = match &self.metadata[i] {
                Some(text) => read_notes(Some(text.as_str())),
                None => read_notes(None),
            };
            let event = DetectedEvent {
                id: self.event_id[i].clone(),
                timestamp: self.ts_ns[i],
                event_type: EventType::from_name(self.kind[i].as_str()),
                target: self.target[i].clone(),
                value_from: clone_option(&self.value_from[i]),
                value_to: clone_option(&self.value_to[i]),
                confidence: self.confidence[i],
                evidence_frames: clone_strings(&self.evidence_frames[i]),
                metadata: notes,
            };
            assert(event@ == event_of(self.cells_at(i as int)));
            events.push(event);
            i += 1;
        }
        Some(events)
    }
}

/// Rows of frame metadata that are written as columns are read back as
/// they were.
pub proof fn lemma_frames_read_back(c: FrameColumns, written: Seq<FrameMetadata>, read: Seq<FrameMetadata>)
    requires
        c.holds(written),
        c.holds(read),
    ensures
        row_views(read) == row_views(written),
{
    assert forall|i: int| 0 <= i < read.len() implies row_view(read[i]) == row_view(written[i]) by {
        assert(c.row_at(i) == row_view(read[i]));
        assert(c.row_at(i) == row_view(written[i]));
    }
    assert(row_views(read) =~= row_views(written));
}

/// Text regions that are written as columns are read back as they were.
pub proof fn lemma_regions_read_back(c: OcrColumns, written: Seq<OCRResult>, read: Seq<OCRResult>)
    requires
        c.holds(written),
        c.holds(read),
    ensures
        read.len() == written.len(),
        forall|i: int| 0 <= i < read.len() ==> region_view(#[trigger] read[i]) == region_view(written[i]),
{
    assert forall|i: int| 0 <= i < read.len() implies region_view(#[trigger] read[i]) == region_view(
        written[i],
    ) by {
        assert(c.row_at(i) == region_view(read[i]));
        assert(c.row_at(i) == region_view(written[i]));
    }
}

/// Events that are written as columns are read back with what they had,
/// but for their notes, which are what is read from the stored text.
pub proof fn lemma_events_read_back(c: EventColumns, written: Seq<DetectedEvent>, read: Seq<DetectedEvent>)
    requires
        c.holds(written),
        c.gives(read),
    ensures
        read.len() == written.len(),
        forall|i: int|
            0 <= i < read.len() ==> (#[trigger] read[i])@ == (DetectedEventView {
                metadata: read[i]@.metadata,
                ..written[i]@
            }),
{
    assert forall|i: int| 0 <= i < read.len() implies (#[trigger] read[i])@ == (DetectedEventView {
        metadata: read[i]@.metadata,
        ..written[i]@
    }) by {
        assert(c.cells_at(i) == cells_of(written[i]@));
        assert(read[i]@ == event_of(c.cells_at(i)));
        written[i]@.event_type.lemma_name_round_trip();
    }
}

} // verus!
