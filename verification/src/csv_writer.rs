//! Frame metadata as lines of comma-separated values.

use vstd::prelude::*;
use crate::metadata_collector::FrameMetadata;
use crate::clock::{format_utc_stamp, utc_stamp};
use crate::seqs::{collect, lemma_collect_step};
use crate::storage::{stamped_file, stamped_file_name, BatchBuffer};
use crate::text::{
    char_vec,
    contains_char,
    parse_i32,
    parse_i32_chars,
    parse_i64,
    parse_i64_chars,
    parse_millionths,
    parse_millionths_chars,
    parse_u32,
    parse_u32_chars,
    part_views,
    push_decimal,
    push_millionths,
    push_signed_decimal,
    push_str_chars,
    slice_chars,
    spec_decimal,
    spec_millionths,
    spec_signed_decimal,
    split,
    split_chars,
    string_of,
};

verus! {

/// Whether a field must be put in quotes: it holds a comma, a quote or a
/// line feed.
pub open spec fn needs_quoting(s: Seq<char>) -> bool {
    s.contains(',') || s.contains('"') || s.contains('\n')
}

/// The text with every quote written twice.
pub open spec fn doubled_quotes(s: Seq<char>) -> Seq<char>
    decreases s.len(),
{
    if s.len() == 0 {
        Seq::empty()
    } else if s[0] == '"' {
        seq!['"', '"'] + doubled_quotes(s.drop_first())
    } else {
        seq![s[0]] + doubled_quotes(s.drop_first())
    }
}

/// The text with every pair of quotes, read from the left, written once.
pub open spec fn collapsed_quotes(s: Seq<char>) -> Seq<char>
    decreases s.len(),
{
    if s.len() == 0 {
        Seq::empty()
    } else if s.len() >= 2 && s[0] == '"' && s[1] == '"' {
        seq!['"'] + collapsed_quotes(s.skip(2))
    } else {
        seq![s[0]] + collapsed_quotes(s.drop_first())
    }
}

/// A field as it is written: in quotes, with its own quotes doubled, where
/// it needs quoting, and as it is where it does not.
pub open spec fn escaped(s: Seq<char>) -> Seq<char> {
    if needs_quoting(s) {
        seq!['"'] + doubled_quotes(s) + seq!['"']
    } else {
        s
    }
}

/// Whether a written field begins and ends with a quote.
pub open spec fn is_quoted(s: Seq<char>) -> bool {
    s.len() >= 1 && s[0] == '"' && s.last() == '"'
}

/// A written field as it was before it was written.
pub open spec fn unescaped(s: Seq<char>) -> Seq<char> {
    if is_quoted(s) {
        collapsed_quotes(s.subrange(1, s.len() - 1))
    } else {
        s
    }
}

proof fn lemma_doubled_quotes_append(a: Seq<char>, c: char)
    ensures
        doubled_quotes(a.push(c)) == doubled_quotes(a) + if c == '"' {
            seq!['"', '"']
        } else {
            seq![c]
        },
    decreases a.len(),
{
    if a.len() == 0 {
        assert(a.push(c).drop_first() =~= Seq::<char>::empty());
        assert(a =~= Seq::<char>::empty());
        assert(doubled_quotes(Seq::<char>::empty()) =~= Seq::<char>::empty());
        assert(a.push(c)[0] == c);
        assert(doubled_quotes(a.push(c)) =~= doubled_quotes(a) + if c == '"' {
            seq!['"', '"']
        } else {
            seq![c]
        });
    } else {
        lemma_doubled_quotes_append(a.drop_first(), c);
        assert(a.push(c).drop_first() =~= a.drop_first().push(c));
        assert(doubled_quotes(a.push(c)) =~= doubled_quotes(a) + if c == '"' {
            seq!['"', '"']
        } else {
            seq![c]
        });
    }
}

proof fn lemma_collapse_doubled(s: Seq<char>)
    ensures
        collapsed_quotes(doubled_quotes(s)) == s,
    decreases s.len(),
{
    if s.len() > 0 {
        let rest = s.drop_first();
        lemma_collapse_doubled(rest);
        let d = doubled_quotes(s);
        if s[0] == '"' {
            assert(d.skip(2) =~= doubled_quotes(rest));
            assert(seq!['"'] + rest =~= s);
        } else {
            assert(d.drop_first() =~= doubled_quotes(rest));
            assert(seq![s[0]] + rest =~= s);
        }
    }
}

/// What is written for a field reads back as the field.
pub proof fn lemma_unescape_escaped(s: Seq<char>)
    ensures
        unescaped(escaped(s)) == s,
        escaped(s).len() != 1 || escaped(s)[0] != '"',
{
    if needs_quoting(s) {
        let e = escaped(s);
        lemma_collapse_doubled(s);
        assert(e.subrange(1, e.len() - 1) =~= doubled_quotes(s));
    } else {
        if s.len() >= 1 && s[0] == '"' {
            assert(s.contains('"'));
        }
    }
}

/// A field as it is written to a line.
pub fn escape_csv_field(field: &str) -> (r: String)
    ensures
        r@ == escaped(field@),
{
    let chars = char_vec(field);
    if contains_char(&chars, ',') || contains_char(&chars, '"') || contains_char(&chars, '\n') {
        let mut out: Vec<char> = Vec::new();
        out.push('"');
        let mut i: usize = 0;
        assert(chars@.take(0) =~= Seq::<char>::empty());
        while i < chars.len()
            invariant
                i <= chars.len(),
                out@ == seq!['"'] + doubled_quotes(chars@.take(i as int)),
            decreases chars.len() - i,
        {
            proof {
                lemma_doubled_quotes_append(chars@.take(i as int), chars@[i as int]);
                assert(chars@.take(i as int).push(chars@[i as int]) =~= chars@.take(i + 1));
            }
            let ghost before = out@;
            if chars[i] == '"' {
                out.push('"');
                out.push('"');
                assert(out@ =~= before + seq!['"', '"']);
            } else {
                out.push(chars[i]);
                assert(out@ =~= before + seq![chars@[i as int]]);
            }
            assert(out@ =~= seq!['"'] + doubled_quotes(chars@.take(i + 1)));
            i += 1;
        }
        assert(chars@.take(chars.len() as int) =~= chars@);
        out.push('"');
        assert(out@ =~= escaped(field@));
        string_of(&out)
    } else {
        string_of(&chars)
    }
}

/// A written field as it was before it was written. A field that is a
/// single quote and nothing else is never written and cannot be read.
pub fn unescape_csv_field(field: &str) -> (r: String)
    requires
        field@.len() != 1 || field@[0] != '"',
    ensures
        r@ == unescaped(field@),
{
    let chars = char_vec(field);
    let n = chars.len();
    if n >= 2 && chars[0] == '"' && chars[n - 1] == '"' {
        let inner = slice_chars(&chars, 1, n - 1);
        let mut out: Vec<char> = Vec::new();
        let mut i: usize = 0;
        let m = inner.len();
        assert(inner@.skip(0) =~= inner@);
        while i < m
            invariant
                i <= m,
                m == inner.len(),
                out@ + collapsed_quotes(inner@.skip(i as int)) == collapsed_quotes(inner@),
            decreases m - i,
        {
            let ghost rest = inner@.skip(i as int);
            let ghost before = out@;
            if i + 1 < m && inner[i] == '"' && inner[i + 1] == '"' {
                out.push('"');
                assert(rest.skip(2) =~= inner@.skip(i + 2));
                assert(before.push('"') + collapsed_quotes(inner@.skip(i + 2)) =~= before + (seq![
                    '"',
                ] + collapsed_quotes(inner@.skip(i + 2))));
                i += 2;
            } else {
                out.push(inner[i]);
                assert(rest.drop_first() =~= inner@.skip(i + 1));
                assert(before.push(inner@[i as int]) + collapsed_quotes(inner@.skip(i + 1)) =~= before
                    + (seq![inner@[i as int]] + collapsed_quotes(inner@.skip(i + 1))));
                i += 1;
            }
        }
        assert(out@ + Seq::<char>::empty() =~= out@);
        string_of(&out)
    } else {
        string_of(&chars)
    }
}

/// A row of frame metadata as a value.
pub struct FrameRow {
    pub ts_ns: i64,
    pub monitor_id: i32,
    pub segment_id: Seq<char>,
    pub path: Seq<char>,
    pub phash16: i64,
    pub entropy: u32,
    pub app_name: Seq<char>,
    pub win_title: Seq<char>,
    pub width: u32,
    pub height: u32,
}

/// The row as a value.
pub open spec fn row_view(row: FrameMetadata) -> FrameRow {
    FrameRow {
        ts_ns: row.ts_ns,
        monitor_id: row.monitor_id,
        segment_id: row.segment_id@,
        path: row.path@,
        phash16: row.phash16,
        entropy: row.entropy,
        app_name: row.app_name@,
        win_title: row.win_title@,
        width: row.width,
        height: row.height,
    }
}

/// The rows as values.
pub open spec fn row_views(rows: Seq<FrameMetadata>) -> Seq<FrameRow> {
    Seq::new(rows.len(), |i: int| row_view(rows[i]))
}

/// The first line of a file: the names of the columns.
pub open spec fn header() -> Seq<char> {
    "ts_ns,monitor_id,segment_id,path,phash16,entropy,app_name,win_title,width,height"@
}

/// The line of a row, without its line feed. The entropy is written in
/// bits, as a decimal fraction.
pub open spec fn csv_line(row: FrameRow) -> Seq<char> {
    spec_signed_decimal(row.ts_ns as int) + seq![','] + spec_signed_decimal(row.monitor_id as int)
        + seq![','] + escaped(row.segment_id) + seq![','] + escaped(row.path) + seq![',']
        + spec_signed_decimal(row.phash16 as int) + seq![','] + spec_millionths(row.entropy as nat)
        + seq![','] + escaped(row.app_name) + seq![','] + escaped(row.win_title) + seq![',']
        + spec_decimal(row.width as nat) + seq![','] + spec_decimal(row.height as nat)
}

/// The lines of the rows, each with its line feed.
pub open spec fn csv_lines(rows: Seq<FrameRow>) -> Seq<char>
    decreases rows.len(),
{
    if rows.len() == 0 {
        Seq::empty()
    } else {
        csv_lines(rows.drop_last()) + csv_line(rows.last()).push('\n')
    }
}

/// The text of a file: the header and the lines of the rows.
pub open spec fn csv_text(rows: Seq<FrameRow>) -> Seq<char> {
    header().push('\n') + csv_lines(rows)
}

/// A written field as it was before it was written; a field that is a
/// single quote and nothing else is taken as it is.
pub open spec fn field_text(field: Seq<char>) -> Seq<char> {
    if field.len() == 1 && field[0] == '"' {
        field
    } else {
        unescaped(field)
    }
}

/// The number, or 0 where there is none.
pub open spec fn or_zero_i64(v: Option<i64>) -> i64 {
    match v {
        Some(n) => n,
        None => 0,
    }
}

/// The number, or 0 where there is none.
pub open spec fn or_zero_i32(v: Option<i32>) -> i32 {
    match v {
        Some(n) => n,
        None => 0,
    }
}

/// The number, or 0 where there is none.
pub open spec fn or_zero_u32(v: Option<u32>) -> u32 {
    match v {
        Some(n) => n,
        None => 0,
    }
}

/// The row that a line holds: the line is cut at every comma, and a line
/// that does not give ten fields holds no row. A number that cannot be read
/// is taken as 0; the entropy is read as a decimal fraction of bits.
pub open spec fn row_of_line(line: Seq<char>) -> Option<FrameRow> {
    let fields = split(line, ',');
    if fields.len() != 10 {
        None
    } else {
        Some(
            FrameRow {
                ts_ns: or_zero_i64(parse_i64(fields[0])),
                monitor_id: or_zero_i32(parse_i32(fields[1])),
                segment_id: field_text(fields[2]),
                path: field_text(fields[3]),
                phash16: or_zero_i64(parse_i64(fields[4])),
                entropy: or_zero_u32(parse_millionths(fields[5])),
                app_name: field_text(fields[6]),
                win_title: field_text(fields[7]),
                width: or_zero_u32(parse_u32(fields[8])),
                height: or_zero_u32(parse_u32(fields[9])),
            },
        )
    }
}

/// A line without the carriage return at its end, if it has one.
pub open spec fn without_return(line: Seq<char>) -> Seq<char> {
    if line.len() > 0 && line.last() == '\r' {
        line.drop_last()
    } else {
        line
    }
}

/// The lines of a text. A line ends with a line feed, which may follow a
/// carriage return; neither belongs to the line. The last line need not
/// end so.
pub open spec fn lines_of(text: Seq<char>) -> Seq<Seq<char>> {
    let parts = split(text, '\n');
    Seq::new(
        (if parts.last().len() == 0 {
            parts.len() - 1
        } else {
            parts.len() as int
        }) as nat,
        |i: int|
            if i < parts.len() - 1 {
                without_return(parts[i])
            } else {
                parts[i]
            },
    )
}

/// The rows that the text of a file holds: those of its lines after the first.
pub open spec fn csv_rows(text: Seq<char>) -> Seq<FrameRow> {
    if lines_of(text).len() == 0 {
        Seq::empty()
    } else {
        collect(lines_of(text).skip(1), |line: Seq<char>| row_of_line(line))
    }
}

fn push_escaped(out: &mut Vec<char>, field: &String)
    ensures
        final(out)@ == old(out)@ + escaped(field@),
{
    let e = escape_csv_field(field.as_str());
    push_str_chars(out, e.as_str());
}

/// Appends the line of a row and its line feed.
pub fn push_csv_line(out: &mut Vec<char>, row: &FrameMetadata)
    ensures
        final(out)@ == old(out)@ + csv_line(row_view(*row)).push('\n'),
{
    let ghost start = out@;
    let ghost v = row_view(*row);
    push_signed_decimal(out, row.ts_ns);
    out.push(',');
    let ghost l1 = spec_signed_decimal(v.ts_ns as int) + seq![','];
    assert(out@ =~= start + l1);
    push_signed_decimal(out, row.monitor_id as i64);
    out.push(',');
    let ghost l2 = l1 + spec_signed_decimal(v.monitor_id as int) + seq![','];
    assert(out@ =~= start + l2);
    push_escaped(out, &row.segment_id);
    out.push(',');
    let ghost l3 = l2 + escaped(v.segment_id) + seq![','];
    assert(out@ =~= start + l3);
    push_escaped(out, &row.path);
    out.push(',');
    let ghost l4 = l3 + escaped(v.path) + seq![','];
    assert(out@ =~= start + l4);
    push_signed_decimal(out, row.phash16);
    out.push(',');
    let ghost l5 = l4 + spec_signed_decimal(v.phash16 as int) + seq![','];
    assert(out@ =~= start + l5);
    push_millionths(out, row.entropy);
    out.push(',');
    let ghost l6 = l5 + spec_millionths(v.entropy as nat) + seq![','];
    assert(out@ =~= start + l6);
    push_escaped(out, &row.app_name);
    out.push(',');
    let ghost l7 = l6 + escaped(v.app_name) + seq![','];
    assert(out@ =~= start + l7);
    push_escaped(out, &row.win_title);
    out.push(',');
    let ghost l8 = l7 + escaped(v.win_title) + seq![','];
    assert(out@ =~= start + l8);
    push_decimal(out, row.width as u64);
    out.push(',');
    let ghost l9 = l8 + spec_decimal(v.width as nat) + seq![','];
    assert(out@ =~= start + l9);
    push_decimal(out, row.height as u64);
    let ghost l10 = l9 + spec_decimal(v.height as nat);
    assert(out@ =~= start + l10);
    assert(l10 == csv_line(v));
    out.push('\n');
    assert(out@ =~= start + csv_line(v).push('\n'));
}

/// The text of a file with the given rows.
pub fn format_csv(rows: &Vec<FrameMetadata>) -> (text: String)
    ensures
        text@ == csv_text(row_views(rows@)),
{
    let mut out = char_vec(
        "ts_ns,monitor_id,segment_id,path,phash16,entropy,app_name,win_title,width,height",
    );
    out.push('\n');
    let ghost views = row_views(rows@);
    let mut i: usize = 0;
    assert(out@ =~= header().push('\n') + csv_lines(views.take(0)));
    while i < rows.len()
        invariant
            i <= rows.len(),
            views == row_views(rows@),
            out@ == header().push('\n') + csv_lines(views.take(i as int)),
        decreases rows.len() - i,
    {
        assert(views.take(i + 1).drop_last() =~= views.take(i as int));
        let ghost before = out@;
        push_csv_line(&mut out, &rows[i]);
        assert(out@ =~= header().push('\n') + csv_lines(views.take(i + 1)));
        i += 1;
    }
    assert(views.take(rows.len() as int) =~= views);
    string_of(&out)
}

fn field_string(field: &Vec<char>) -> (s: String)
    ensures
        s@ == field_text(field@),
{
    if field.len() == 1 && field[0] == '"' {
        string_of(field)
    } else {
        let text = string_of(field);
        unescape_csv_field(text.as_str())
    }
}

/// The row that a line holds.
pub fn parse_csv_line(line: &Vec<char>) -> (r: Option<FrameMetadata>)
    ensures
        match r {
            Some(row) => row_of_line(line@) == Some(row_view(row)),
            None => row_of_line(line@) is None,
        },
{
    let fields = split_chars(line, ',');
    if fields.len() != 10 {
        return None;
    }
    assert(forall|i: int| 0 <= i < fields.len() ==> fields@[i]@ == part_views(fields@)[i]);
    Some(
        FrameMetadata {
            ts_ns: match parse_i64_chars(&fields[0]) {
                Some(n) => n,
                None => 0,
            },
            monitor_id: match parse_i32_chars(&fields[1]) {
                Some(n) => n,
                None => 0,
            },
            segment_id: field_string(&fields[2]),
            path: field_string(&fields[3]),
            phash16: match parse_i64_chars(&fields[4]) {
                Some(n) => n,
                None => 0,
            },
            entropy: match parse_millionths_chars(&fields[5]) {
                Some(n) => n,
                None => 0,
            },
            app_name: field_string(&fields[6]),
            win_title: field_string(&fields[7]),
            width: match parse_u32_chars(&fields[8]) {
                Some(n) => n,
                None => 0,
            },
            height: match parse_u32_chars(&fields[9]) {
                Some(n) => n,
                None => 0,
            },
        },
    )
}

/// The lines of a text.
pub fn text_lines(text: &str) -> (lines: Vec<Vec<char>>)
    ensures
        part_views(lines@) == lines_of(text@),
{
    let chars = char_vec(text);
    let parts = split_chars(&chars, '\n');
    let n = parts.len();
    let count: usize = if parts[n - 1].len() == 0 {
        n - 1
    } else {
        n
    };
    assert(forall|i: int| 0 <= i < parts.len() ==> parts@[i]@ == part_views(parts@)[i]);
    let mut lines: Vec<Vec<char>> = Vec::new();
    let mut i: usize = 0;
    while i < count
        invariant
            i <= count,
            count <= n,
            n == parts.len(),
            part_views(parts@) == split(text@, '\n'),
            count == (if split(text@, '\n').last().len() == 0 {
                n - 1
            } else {
                n as int
            }),
            lines.len() == i,
            forall|k: int| 0 <= k < i ==> lines@[k]@ == lines_of(text@)[k],
        decreases count - i,
    {
        assert(parts@[i as int]@ == part_views(parts@)[i as int]);
        let part = &parts[i];
        let m = part.len();
        let line = if i + 1 < n && m > 0 && part[m - 1] == '\r' {
            let cut = slice_chars(part, 0, m - 1);
            assert(cut@ =~= without_return(part@));
            cut
        } else {
            let whole = slice_chars(part, 0, m);
            assert(whole@ =~= part@);
            whole
        };
        lines.push(line);
        i += 1;
    }
    assert(part_views(lines@) =~= lines_of(text@));
    lines
}

/// The rows that the text of a file holds.
pub fn parse_csv(text: &str) -> (rows: Vec<FrameMetadata>)
    ensures
        row_views(rows@) == csv_rows(text@),
{
    let lines = text_lines(text);
    let ghost all = lines_of(text@).skip(1);
    let ghost f = |line: Seq<char>| row_of_line(line);
    let mut rows: Vec<FrameMetadata> = Vec::new();
    if lines.len() == 0 {
        assert(row_views(rows@) =~= Seq::<FrameRow>::empty());
        return rows;
    }
    let mut i: usize = 1;
    assert(row_views(rows@) =~= collect(all.take(0), f));
    while i < lines.len()
        invariant
            1 <= i <= lines.len(),
            part_views(lines@) == lines_of(text@),
            all == lines_of(text@).skip(1),
            f == |line: Seq<char>| row_of_line(line),
            row_views(rows@) == collect(all.take(i - 1), f),
        decreases lines.len() - i,
    {
        proof {
            lemma_collect_step(all, f, i - 1);
            assert(all[i - 1] == lines@[i as int]@) by {
                assert(part_views(lines@)[i as int] == lines@[i as int]@);
            }
        }
        let ghost before = row_views(rows@);
        match parse_csv_line(&lines[i]) {
            Some(row) => {
                rows.push(row);
                assert(row_views(rows@) =~= before.push(row_view(row)));
            },
            None => {},
        }
        i += 1;
    }
    assert(all.take(lines.len() - 1) =~= all);
    rows
}

/// A batch of rows on its way to a file.
#[derive(Debug)]
pub struct CsvFlushJob {
    /// The name of the file in the output directory.
    pub file_name: String,
    /// The text of the file.
    pub content: String,
    pub rows: Vec<FrameMetadata>,
}

/// The name of the file of a batch that is written at `secs` seconds after
/// the epoch: "frames", an underscore, the calendar stamp of the instant and
/// the ending ".csv".
pub open spec fn csv_file(secs: int) -> Option<Seq<char>> {
    match utc_stamp(secs) {
        Some(stamp) => Some(stamped_file("frames"@, stamp, ".csv"@)),
        None => None,
    }
}

/// Collects rows of frame metadata and hands them out in batches, one
/// file of comma-separated values for each.
#[derive(Debug)]
pub struct CsvWriter {
    pub output_dir: String,
    pub buffer: BatchBuffer<FrameMetadata>,
}

impl CsvWriter {
    /// A writer with batches of 1000 rows.
    pub fn new(output_dir: &str) -> (r: crate::error::Result<CsvWriter>)
        ensures
            r is Ok,
            r->Ok_0.output_dir@ == output_dir@,
            r->Ok_0.buffer.batch_size == 1000,
            r->Ok_0.buffer.rows@.len() == 0,
    {
        Ok(CsvWriter { output_dir: String::from_str(output_dir), buffer: BatchBuffer::new(1000) })
    }

    /// Adds rows and says whether a flush is due.
    pub fn write_frame_metadata(&mut self, metadata: Vec<FrameMetadata>) -> (due: bool)
        ensures
            final(self).buffer.rows@ == old(self).buffer.rows@ + metadata@,
            due == (old(self).buffer.rows@.len() + metadata@.len() >= old(self).buffer.batch_size),
            final(self).buffer.batch_size == old(self).buffer.batch_size,
            final(self).output_dir == old(self).output_dir,
    {
        self.buffer.add(metadata)
    }

    /// Begins the flush of the waiting rows at `now_secs` seconds after the
    /// epoch: hands them out with the name and the text of their file.
    /// Nothing is handed out, and the rows keep waiting, where no row waits or
    /// the instant has no calendar stamp.
    pub fn flush_batch(&mut self, now_secs: i64) -> (job: Option<CsvFlushJob>)
        ensures
            final(self).buffer.batch_size == old(self).buffer.batch_size,
            final(self).output_dir == old(self).output_dir,
            match job {
                Some(j) => {
                    &&& old(self).buffer.rows@.len() > 0
                    &&& csv_file(now_secs as int) == Some(j.file_name@)
                    &&& j.content@ == csv_text(row_views(old(self).buffer.rows@))
                    &&& j.rows@ == old(self).buffer.rows@
                    &&& final(self).buffer.rows@.len() == 0
                },
                None => {
                    &&& old(self).buffer.rows@.len() == 0 || csv_file(now_secs as int) is None
                    &&& final(self).buffer.rows == old(self).buffer.rows
                },
            },
    {
        if self.buffer.is_empty() {
            return None;
        }
        match format_utc_stamp(now_secs) {
            Some(stamp) => {
                let file_name = stamped_file_name("frames", stamp.as_str(), ".csv");
                let rows = self.buffer.take();
                let content = format_csv(&rows);
                Some(CsvFlushJob { file_name, content, rows })
            },
            None => None,
        }
    }

    /// Takes back the rows of a flush that failed.
    pub fn abort_flush(&mut self, job: CsvFlushJob)
        ensures
            final(self).buffer.rows@ == job.rows@ + old(self).buffer.rows@,
            final(self).buffer.batch_size == old(self).buffer.batch_size,
            final(self).output_dir == old(self).output_dir,
    {
        self.buffer.restore(job.rows);
    }

    /// Begins the flush of what still waits, as `flush_batch` does.
    pub fn finalize(&mut self, now_secs: i64) -> (job: Option<CsvFlushJob>)
        ensures
            final(self).buffer.batch_size == old(self).buffer.batch_size,
            final(self).output_dir == old(self).output_dir,
            match job {
                Some(j) => {
                    &&& old(self).buffer.rows@.len() > 0
                    &&& csv_file(now_secs as int) == Some(j.file_name@)
                    &&& j.content@ == csv_text(row_views(old(self).buffer.rows@))
                    &&& j.rows@ == old(self).buffer.rows@
                    &&& final(self).buffer.rows@.len() == 0
                },
                None => {
                    &&& old(self).buffer.rows@.len() == 0 || csv_file(now_secs as int) is None
                    &&& final(self).buffer.rows == old(self).buffer.rows
                },
            },
    {
        self.flush_batch(now_secs)
    }

    pub fn set_batch_size(&mut self, batch_size: usize)
        ensures
            final(self).buffer.batch_size == batch_size,
            final(self).buffer.rows == old(self).buffer.rows,
            final(self).output_dir == old(self).output_dir,
    {
        self.buffer.set_batch_size(batch_size);
    }

    pub fn get_output_dir(&self) -> (dir: &String)
        ensures
            dir == &self.output_dir,
    {
        &self.output_dir
    }

    /// The rows that the text of a file holds.
    pub fn read_csv_file(&self, content: &str) -> (r: crate::error::Result<Vec<FrameMetadata>>)
        ensures
            r is Ok,
            row_views(r->Ok_0@) == csv_rows(content@),
    {
        Ok(parse_csv(content))
    }
}

} // verus!
