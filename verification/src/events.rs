//! Semantic events and the detector that derives them from OCR results.

use vstd::prelude::*;
use crate::error::Result;
use crate::error_modal::{
    frame_events,
    sans_ids as error_modal_sans_ids,
    ErrorModalDetector,
    ErrorModalEvent,
    ErrorModalEventView,
    ErrorModalType,
};
use crate::geometry::BoundingBox;
use crate::ids::fresh_id;
use crate::keyvalue::Metadata;
use crate::ocr::{confident, filter_confident, OCRResult};
use crate::seqs::{
    collect, concat_map, lemma_collect_all, lemma_collect_step, lemma_concat_map_all,
    lemma_concat_map_step, lemma_keep_if_all,
};
use crate::text::{
    char_vec,
    clone_option,
    clone_strings,
    contains,
    decimal_string,
    ends_with,
    levenshtein_chars,
    lowercase_of,
    option_view,
    push_decimal,
    push_signed_decimal,
    push_str_chars,
    same_chars,
    signed_decimal_string,
    spec_contains,
    spec_decimal,
    spec_ends_with,
    spec_levenshtein,
    spec_signed_decimal,
    string_of,
    string_views,
    to_lowercase,
};
use crate::units::{lemma_ratio_bounds, lemma_scale_bounds, mean2, ratio, scale, scale_by, UNIT};

verus! {

/// The kinds of semantic events.
#[derive(Clone, Copy, Debug, PartialEq, Eq, Structural)]
pub enum EventType {
    /// The value of a field changed.
    FieldChange,
    /// A form was submitted or a button pressed.
    FormSubmission,
    /// A modal dialog appeared.
    ModalAppearance,
    /// An error message is shown.
    ErrorDisplay,
    /// The page, tab or window changed.
    Navigation,
    /// A new field or value appeared.
    DataEntry,
}

impl EventType {
    /// The name of the kind as it is stored, in lower case with underscores.
    pub open spec fn spec_name(self) -> Seq<char> {
        match self {
            EventType::FieldChange => "field_change"@,
            EventType::FormSubmission => "form_submission"@,
            EventType::ModalAppearance => "modal_appearance"@,
            EventType::ErrorDisplay => "error_display"@,
            EventType::Navigation => "navigation"@,
            EventType::DataEntry => "data_entry"@,
        }
    }

    /// The name of the kind as it is stored.
    pub fn name(&self) -> (s: &'static str)
        ensures
            s@ == self.spec_name(),
    {
        match self {
            EventType::FieldChange => "field_change",
            EventType::FormSubmission => "form_submission",
            EventType::ModalAppearance => "modal_appearance",
            EventType::ErrorDisplay => "error_display",
            EventType::Navigation => "navigation",
            EventType::DataEntry => "data_entry",
        }
    }

    /// The kind that a stored name stands for; a field change for any other text.
    pub open spec fn spec_from_name(name: Seq<char>) -> EventType {
        if name == "form_submission"@ {
            EventType::FormSubmission
        } else if name == "modal_appearance"@ {
            EventType::ModalAppearance
        } else if name == "error_display"@ {
            EventType::ErrorDisplay
        } else if name == "navigation"@ {
            EventType::Navigation
        } else if name == "data_entry"@ {
            EventType::DataEntry
        } else {
            EventType::FieldChange
        }
    }

    /// The name of a kind stands for that kind.
    pub proof fn lemma_name_round_trip(self)
        ensures
            EventType::spec_from_name(self.spec_name()) == self,
    {
        reveal_strlit("field_change");
        reveal_strlit("form_submission");
        reveal_strlit("modal_appearance");
        reveal_strlit("error_display");
        reveal_strlit("navigation");
        reveal_strlit("data_entry");
        let n = self.spec_name();
        match self {
            EventType::FieldChange => {
                assert(n.len() == 12);
                assert(n[0] == 'f');
            },
            EventType::FormSubmission => {},
            EventType::ModalAppearance => {
                assert(n.len() == 16);
            },
            EventType::ErrorDisplay => {
                assert(n.len() == 13);
            },
            EventType::Navigation => {
                assert(n.len() == 10);
                assert(n[0] == 'n');
            },
            EventType::DataEntry => {
                assert(n.len() == 10);
                assert(n[0] == 'd');
            },
        }
    }

    /// The kind that a stored name stands for.
    pub fn from_name(name: &str) -> (t: EventType)
        ensures
            t == EventType::spec_from_name(name@),
    {
        let n = char_vec(name);
        if same_chars(&n, &char_vec("form_submission")) {
            EventType::FormSubmission
        } else if same_chars(&n, &char_vec("modal_appearance")) {
            EventType::ModalAppearance
        } else if same_chars(&n, &char_vec("error_display")) {
            EventType::ErrorDisplay
        } else if same_chars(&n, &char_vec("navigation")) {
            EventType::Navigation
        } else if same_chars(&n, &char_vec("data_entry")) {
            EventType::DataEntry
        } else {
            EventType::FieldChange
        }
    }
}

/// A detected event with its evidence.
#[derive(Debug)]
pub struct DetectedEvent {
    pub id: String,
    /// In nanoseconds since the epoch.
    pub timestamp: i64,
    pub event_type: EventType,
    /// The element that the event is about.
    pub target: String,
    pub value_from: Option<String>,
    pub value_to: Option<String>,
    /// In millionths.
    pub confidence: u32,
    /// The frames in which the event was seen.
    pub evidence_frames: Vec<String>,
    pub metadata: Metadata,
}

/// A detected event as a value.
pub struct DetectedEventView {
    pub id: Seq<char>,
    pub timestamp: i64,
    pub event_type: EventType,
    pub target: Seq<char>,
    pub value_from: Option<Seq<char>>,
    pub value_to: Option<Seq<char>>,
    pub confidence: u32,
    pub evidence_frames: Seq<Seq<char>>,
    pub metadata: Seq<(Seq<char>, Seq<char>)>,
}

impl DetectedEventView {
    /// The same event under another identifier.
    pub open spec fn with_id(self, id: Seq<char>) -> DetectedEventView {
        DetectedEventView { id, ..self }
    }

    /// The event without its identifier.
    pub open spec fn sans_id(self) -> DetectedEventView {
        self.with_id(Seq::empty())
    }

    /// Whether the event has a confidence between 0 and 1 and names at
    /// least one frame as evidence.
    pub open spec fn well_formed(self) -> bool {
        self.confidence <= UNIT && self.evidence_frames.len() >= 1
    }
}

impl View for DetectedEvent {
    type V = DetectedEventView;

    open spec fn view(&self) -> DetectedEventView {
        DetectedEventView {
            id: self.id@,
            timestamp: self.timestamp,
            event_type: self.event_type,
            target: self.target@,
            value_from: option_view(self.value_from),
            value_to: option_view(self.value_to),
            confidence: self.confidence,
            evidence_frames: string_views(self.evidence_frames@),
            metadata: self.metadata@,
        }
    }
}

impl Clone for DetectedEvent {
    fn clone(&self) -> (r: Self)
        ensures
            r@ == self@,
    {
        DetectedEvent {
            id: self.id.clone(),
            timestamp: self.timestamp,
            event_type: self.event_type,
            target: self.target.clone(),
            value_from: clone_option(&self.value_from),
            value_to: clone_option(&self.value_to),
            confidence: self.confidence,
            evidence_frames: clone_strings(&self.evidence_frames),
            metadata: self.metadata.clone(),
        }
    }
}

/// The events without their identifiers.
pub open spec fn sans_ids(events: Seq<DetectedEvent>) -> Seq<DetectedEventView> {
    Seq::new(events.len(), |i: int| events[i]@.sans_id())
}

/// The events as they are, identifiers included.
pub open spec fn event_views(events: Seq<DetectedEvent>) -> Seq<DetectedEventView> {
    Seq::new(events.len(), |i: int| events[i]@)
}

/// Whether one of the words occurs in the text.
pub open spec fn any_word_in(hay: Seq<char>, words: Seq<Seq<char>>) -> bool {
    exists|i: int| 0 <= i < words.len() && spec_contains(hay, #[trigger] words[i])
}

/// The texts of the words, in order.
pub open spec fn word_views(words: Seq<&'static str>) -> Seq<Seq<char>> {
    Seq::new(words.len(), |i: int| words[i]@)
}

/// Whether one of the words occurs in the text.
pub fn contains_any(hay: &Vec<char>, words: &Vec<&'static str>) -> (r: bool)
    ensures
        r == any_word_in(hay@, word_views(words@)),
{
    let mut i: usize = 0;
    while i < words.len()
        invariant
            i <= words.len(),
            forall|k: int| 0 <= k < i ==> !spec_contains(hay@, #[trigger] word_views(words@)[k]),
        decreases words.len() - i,
    {
        let w = char_vec(words[i]);
        if contains(hay, &w) {
            assert(spec_contains(hay@, word_views(words@)[i as int]));
            return true;
        }
        i += 1;
    }
    false
}

/// The words that mark an error message.
pub open spec fn error_words() -> Seq<Seq<char>> {
    seq![
        "error"@,
        "failed"@,
        "invalid"@,
        "incorrect"@,
        "wrong"@,
        "cannot"@,
        "unable"@,
        "denied"@,
        "forbidden"@,
        "timeout"@,
        "exception"@,
        "warning"@,
        "alert"@,
        "problem"@,
    ]
}

/// The words that mark a modal dialog.
pub open spec fn modal_words() -> Seq<Seq<char>> {
    seq![
        "confirm"@,
        "cancel"@,
        "ok"@,
        "yes"@,
        "no"@,
        "close"@,
        "dialog"@,
        "popup"@,
        "modal"@,
        "alert"@,
        "notification"@,
    ]
}

/// The words that mark the submission of a form.
pub open spec fn submission_words() -> Seq<Seq<char>> {
    seq![
        "submit"@,
        "send"@,
        "save"@,
        "create"@,
        "update"@,
        "login"@,
        "register"@,
        "sign in"@,
        "sign up"@,
        "continue"@,
    ]
}

/// The words that mark a label of an input element.
pub open spec fn input_words() -> Seq<Seq<char>> {
    seq!["enter"@, "input"@, "select"@, "choose"@]
}

fn error_word_list() -> (v: Vec<&'static str>)
    ensures
        word_views(v@) == error_words(),
{
    let v = vec![
        "error",
        "failed",
        "invalid",
        "incorrect",
        "wrong",
        "cannot",
        "unable",
        "denied",
        "forbidden",
        "timeout",
        "exception",
        "warning",
        "alert",
        "problem",
    ];
    assert(word_views(v@) =~= error_words());
    v
}

fn modal_word_list() -> (v: Vec<&'static str>)
    ensures
        word_views(v@) == modal_words(),
{
    let v = vec![
        "confirm",
        "cancel",
        "ok",
        "yes",
        "no",
        "close",
        "dialog",
        "popup",
        "modal",
        "alert",
        "notification",
    ];
    assert(word_views(v@) =~= modal_words());
    v
}

fn submission_word_list() -> (v: Vec<&'static str>)
    ensures
        word_views(v@) == submission_words(),
{
    let v = vec![
        "submit",
        "send",
        "save",
        "create",
        "update",
        "login",
        "register",
        "sign in",
        "sign up",
        "continue",
    ];
    assert(word_views(v@) =~= submission_words());
    v
}

fn input_word_list() -> (v: Vec<&'static str>)
    ensures
        word_views(v@) == input_words(),
{
    let v = vec!["enter", "input", "select", "choose"];
    assert(word_views(v@) =~= input_words());
    v
}

/// Whether `c` is a number in the sense of Unicode: a character of one of
/// the general categories Nd, Nl and No.
pub uninterp spec fn is_numeric_char(c: char) -> bool;

/// `char::is_numeric`.
#[verifier::external_body]
pub(crate) fn char_is_numeric(c: char) -> (r: bool)
    ensures
        r == is_numeric_char(c),
{
    c.is_numeric()
}

/// Whether every character of the text is a number.
pub open spec fn all_numeric(text: Seq<char>) -> bool {
    forall|i: int| 0 <= i < text.len() ==> is_numeric_char(#[trigger] text[i])
}

/// Whether every character of the text is a number.
pub fn is_all_numeric(text: &str) -> (r: bool)
    ensures
        r == all_numeric(text@),
{
    let chars = char_vec(text);
    let mut i: usize = 0;
    while i < chars.len()
        invariant
            i <= chars.len(),
            chars@ == text@,
            forall|k: int| 0 <= k < i ==> is_numeric_char(#[trigger] text@[k]),
        decreases chars.len() - i,
    {
        if !char_is_numeric(chars[i]) {
            assert(!is_numeric_char(text@[i as int]));
            return false;
        }
        i += 1;
    }
    true
}

/// Whether a text, given in lower case, looks like the label or the value
/// of an input element: it holds one of the input words or an "@", ends with
/// a colon, or is purely numeric.
pub open spec fn interactive(lowered: Seq<char>, numeric: bool) -> bool {
    any_word_in(lowered, input_words()) || spec_ends_with(lowered, seq![':']) || spec_contains(
        lowered,
        seq!['@'],
    ) || numeric
}

/// Whether a text in lower case speaks of an error.
pub fn lowered_is_error_message(lowered: &str) -> (r: bool)
    ensures
        r == any_word_in(lowered@, error_words()),
{
    contains_any(&char_vec(lowered), &error_word_list())
}

/// Whether a text in lower case belongs to a modal dialog.
pub fn lowered_is_modal_dialog(lowered: &str) -> (r: bool)
    ensures
        r == any_word_in(lowered@, modal_words()),
{
    contains_any(&char_vec(lowered), &modal_word_list())
}

/// Whether a text in lower case marks the submission of a form.
pub fn lowered_is_form_submission(lowered: &str) -> (r: bool)
    ensures
        r == any_word_in(lowered@, submission_words()),
{
    contains_any(&char_vec(lowered), &submission_word_list())
}

/// Whether a text in lower case looks like an input element; `numeric`
/// says whether the text is purely numeric.
pub fn lowered_is_interactive(lowered: &str, numeric: bool) -> (r: bool)
    ensures
        r == interactive(lowered@, numeric),
{
    let l = char_vec(lowered);
    let mut colon: Vec<char> = Vec::new();
    colon.push(':');
    let mut at: Vec<char> = Vec::new();
    at.push('@');
    assert(colon@ =~= seq![':']);
    assert(at@ =~= seq!['@']);
    contains_any(&l, &input_word_list()) || ends_with(&l, &colon) || contains(&l, &at) || numeric
}

/// The identifier of the field at a region: the word "field" and the four
/// numbers of the region, joined by underscores.
pub open spec fn field_id_of(roi: BoundingBox) -> Seq<char> {
    "field_"@ + spec_signed_decimal(roi.x as int) + seq!['_'] + spec_signed_decimal(roi.y as int)
        + seq!['_'] + spec_decimal(roi.width as nat) + seq!['_'] + spec_decimal(roi.height as nat)
}

/// The identifier of the field at a region.
pub fn generate_field_id(roi: &BoundingBox) -> (id: String)
    ensures
        id@ == field_id_of(*roi),
{
    let mut out = char_vec("field_");
    push_signed_decimal(&mut out, roi.x as i64);
    out.push('_');
    push_signed_decimal(&mut out, roi.y as i64);
    out.push('_');
    push_decimal(&mut out, roi.width as u64);
    out.push('_');
    push_decimal(&mut out, roi.height as u64);
    assert(out@ =~= field_id_of(*roi));
    string_of(&out)
}

/// The greater of two numbers.
pub open spec fn max_nat(a: nat, b: nat) -> nat {
    if a >= b {
        a
    } else {
        b
    }
}

/// How different two texts are: 0 for equal texts, 1 where exactly one is
/// empty, else the Levenshtein distance as a share of the length of the
/// longer text in characters.
pub open spec fn text_dissimilarity(a: Seq<char>, b: Seq<char>) -> int {
    if a == b {
        0
    } else if a.len() == 0 || b.len() == 0 {
        UNIT as int
    } else {
        ratio(spec_levenshtein(a, b) as int, max_nat(a.len(), b.len()) as int)
    }
}

/// How similar two texts are: 1 less their dissimilarity.
pub open spec fn text_similarity(a: Seq<char>, b: Seq<char>) -> int {
    (UNIT as int) - text_dissimilarity(a, b)
}

/// How different two texts are, in millionths.
pub fn calculate_text_dissimilarity(text1: &str, text2: &str) -> (d: u32)
    ensures
        d as int == text_dissimilarity(text1@, text2@),
        d <= UNIT,
{
    let a = char_vec(text1);
    let b = char_vec(text2);
    if same_chars(&a, &b) {
        return 0;
    }
    if a.len() == 0 || b.len() == 0 {
        return UNIT;
    }
    let distance = levenshtein_chars(&a, &b);
    let longest: usize = if a.len() >= b.len() {
        a.len()
    } else {
        b.len()
    };
    proof {
        lemma_ratio_bounds(distance as int, longest as int);
        assert(distance as int * 1_000_000 <= 0xffff_ffff_ffff_ffff * 1_000_000) by (nonlinear_arith)
            requires
                distance as int <= 0xffff_ffff_ffff_ffff,
        ;
    }
    ((distance as u128 * 1_000_000) / (longest as u128)) as u32
}

/// How similar two texts are, in millionths.
pub fn calculate_text_similarity(text1: &str, text2: &str) -> (s: u32)
    ensures
        s as int == text_similarity(text1@, text2@),
        s <= UNIT,
{
    UNIT - calculate_text_dissimilarity(text1, text2)
}

/// The notes of an event that stems from one text region.
pub open spec fn region_notes(ocr: OCRResult) -> Seq<(Seq<char>, Seq<char>)> {
    seq![
        ("language"@, ocr.language@),
        ("processor"@, ocr.processor@),
        ("roi_x"@, spec_signed_decimal(ocr.roi.x as int)),
        ("roi_y"@, spec_signed_decimal(ocr.roi.y as int)),
        ("roi_width"@, spec_decimal(ocr.roi.width as nat)),
        ("roi_height"@, spec_decimal(ocr.roi.height as nat)),
    ]
}

/// The notes of an event that stems from one text region.
pub fn create_metadata(ocr: &OCRResult) -> (m: Metadata)
    ensures
        m@ == region_notes(*ocr),
{
    let mut m = Metadata::new();
    m.add("language", ocr.language.clone());
    m.add("processor", ocr.processor.clone());
    m.add("roi_x", signed_decimal_string(ocr.roi.x as i64));
    m.add("roi_y", signed_decimal_string(ocr.roi.y as i64));
    m.add("roi_width", decimal_string(ocr.roi.width as u64));
    m.add("roi_height", decimal_string(ocr.roi.height as u64));
    assert(m@ =~= region_notes(*ocr));
    m
}

/// What the event detector looks at and how sure it must be.
#[derive(Clone, Copy, Debug, PartialEq, Eq, Structural)]
pub struct EventDetectionConfig {
    /// The least OCR confidence of a region that is looked at, in millionths.
    pub min_ocr_confidence: u32,
    /// The least overlap of two regions that count as the same, in millionths.
    pub min_iou_threshold: u32,
    /// The least similarity of two texts that count as the same field, in millionths.
    pub min_text_similarity: u32,
    /// The longest time between two frames that are compared, in seconds.
    pub max_frame_gap_seconds: u32,
    /// The least confidence of a reported event, in millionths.
    pub min_event_confidence: u32,
}

impl EventDetectionConfig {
    pub open spec fn spec_default() -> EventDetectionConfig {
        EventDetectionConfig {
            min_ocr_confidence: 700_000,
            min_iou_threshold: 300_000,
            min_text_similarity: 800_000,
            max_frame_gap_seconds: 10,
            min_event_confidence: 600_000,
        }
    }
}

impl Default for EventDetectionConfig {
    fn default() -> (c: Self)
        ensures
            c == EventDetectionConfig::spec_default(),
    {
        EventDetectionConfig {
            min_ocr_confidence: 700_000,
            min_iou_threshold: 300_000,
            min_text_similarity: 800_000,
            max_frame_gap_seconds: 10,
            min_event_confidence: 600_000,
        }
    }
}

/// Among the first `n` earlier regions, the one that overlaps `current`
/// most, provided the overlap reaches `threshold`; among equals, the first.
pub open spec fn best_match(current: BoundingBox, previous: Seq<OCRResult>, threshold: int, n: nat) -> Option<
    int,
>
    decreases n,
{
    if n == 0 {
        None
    } else {
        let rest = best_match(current, previous, threshold, (n - 1) as nat);
        let v = current.spec_iou(previous[n - 1].roi);
        match rest {
            Some(j) => if v > current.spec_iou(previous[j].roi) {
                Some(n - 1)
            } else {
                rest
            },
            None => if v >= threshold {
                Some(n - 1)
            } else {
                None
            },
        }
    }
}

/// The best match is a region whose overlap reaches the threshold, no
/// region overlaps more, and every region before it overlaps less; there is
/// none exactly where no overlap reaches the threshold.
pub proof fn lemma_best_match(current: BoundingBox, previous: Seq<OCRResult>, threshold: int, n: nat)
    requires
        n <= previous.len(),
    ensures
        match best_match(current, previous, threshold, n) {
            Some(j) => {
                &&& 0 <= j < n
                &&& current.spec_iou(previous[j].roi) >= threshold
                &&& forall|k: int|
                    0 <= k < n ==> current.spec_iou(#[trigger] previous[k].roi) <= current.spec_iou(
                        previous[j].roi,
                    )
                &&& forall|k: int|
                    0 <= k < j ==> current.spec_iou(#[trigger] previous[k].roi) < current.spec_iou(
                        previous[j].roi,
                    )
            },
            None => forall|k: int|
                0 <= k < n ==> current.spec_iou(#[trigger] previous[k].roi) < threshold,
        },
    decreases n,
{
    if n > 0 {
        lemma_best_match(current, previous, threshold, (n - 1) as nat);
    }
}

/// The position of the earlier region that matches `current` best.
pub fn find_best_match(current: &BoundingBox, previous: &Vec<OCRResult>, threshold: u32) -> (r:
    Option<usize>)
    ensures
        match r {
            Some(j) => best_match(*current, previous@, threshold as int, previous@.len()) == Some(
                j as int,
            ) && j < previous.len(),
            None => best_match(*current, previous@, threshold as int, previous@.len()) is None,
        },
{
    let mut best: Option<usize> = None;
    let mut best_iou: u32 = 0;
    let mut k: usize = 0;
    while k < previous.len()
        invariant
            k <= previous.len(),
            match best {
                Some(j) => best_match(*current, previous@, threshold as int, k as nat) == Some(
                    j as int,
                ) && j < k && best_iou as int == current.spec_iou(previous@[j as int].roi),
                None => best_match(*current, previous@, threshold as int, k as nat) is None,
            },
        decreases previous.len() - k,
    {
        let v = current.iou(&previous[k].roi);
        match best {
            Some(_) => {
                if v > best_iou {
                    best = Some(k);
                    best_iou = v;
                }
            },
            None => {
                if v >= threshold {
                    best = Some(k);
                    best_iou = v;
                }
            },
        }
        k += 1;
    }
    best
}

/// The confidence of a field change: 0.4 of the mean OCR confidence, 0.3 of
/// the overlap and 0.3 of the dissimilarity of the texts, at most 1.
pub open spec fn field_change_confidence(conf_a: int, conf_b: int, iou: int, dissimilarity: int) -> int {
    let c = (4 * mean2(conf_a, conf_b) + 3 * iou + 3 * dissimilarity) / 10;
    if c > UNIT as int {
        UNIT as int
    } else {
        c
    }
}

/// The event, without identifier, for a region whose text changed.
pub open spec fn field_change_event(
    current: OCRResult,
    previous: OCRResult,
    frame_id: Seq<char>,
    timestamp: i64,
) -> DetectedEventView {
    DetectedEventView {
        id: Seq::empty(),
        timestamp,
        event_type: EventType::FieldChange,
        target: field_id_of(current.roi),
        value_from: Some(previous.text@),
        value_to: Some(current.text@),
        confidence: field_change_confidence(
            current.confidence as int,
            previous.confidence as int,
            current.roi.spec_iou(previous.roi),
            text_dissimilarity(current.text@, previous.text@),
        ) as u32,
        evidence_frames: seq![frame_id],
        metadata: region_notes(current),
    }
}

/// The event, without identifier, that a single region gives for a word
/// family: the kind and target of the family, and the OCR confidence times
/// the weight of the family.
pub open spec fn region_event(
    ocr: OCRResult,
    kind: EventType,
    target: Seq<char>,
    weight: int,
    frame_id: Seq<char>,
    timestamp: i64,
) -> DetectedEventView {
    DetectedEventView {
        id: Seq::empty(),
        timestamp,
        event_type: kind,
        target,
        value_from: None,
        value_to: Some(ocr.text@),
        confidence: scale(ocr.confidence as int, weight) as u32,
        evidence_frames: seq![frame_id],
        metadata: region_notes(ocr),
    }
}

/// The weights of the word families, in millionths.
pub const ERROR_WEIGHT: u32 = 900_000;

pub const MODAL_WEIGHT: u32 = 850_000;

pub const SUBMISSION_WEIGHT: u32 = 800_000;

pub const DATA_ENTRY_WEIGHT: u32 = 800_000;

/// The field change, without identifier, of a region of the current frame
/// against the regions of the frame before: none where no region matches,
/// the text is the same or the confidence is under the configured minimum.
pub open spec fn change_of(
    cfg: EventDetectionConfig,
    previous: Seq<OCRResult>,
    frame_id: Seq<char>,
    timestamp: i64,
) -> spec_fn(OCRResult) -> Option<DetectedEventView> {
    |current: OCRResult|
        match best_match(current.roi, previous, cfg.min_iou_threshold as int, previous.len()) {
            Some(j) => {
                let e = field_change_event(current, previous[j], frame_id, timestamp);
                if current.text@ != previous[j].text@ && e.confidence >= cfg.min_event_confidence {
                    Some(e)
                } else {
                    None
                }
            },
            None => None,
        }
}

/// The data-entry event, without identifier, of a region of the current
/// frame that matches no region of the frame before: none unless its text
/// looks like an input element and the confidence reaches the minimum.
pub open spec fn entry_of(
    cfg: EventDetectionConfig,
    previous: Seq<OCRResult>,
    frame_id: Seq<char>,
    timestamp: i64,
) -> spec_fn(OCRResult) -> Option<DetectedEventView> {
    |current: OCRResult|
        {
            let e = region_event(
                current,
                EventType::DataEntry,
                field_id_of(current.roi),
                DATA_ENTRY_WEIGHT as int,
                frame_id,
                timestamp,
            );
            if best_match(current.roi, previous, cfg.min_iou_threshold as int, previous.len())
                is None && interactive(lowercase_of(current.text@), all_numeric(current.text@))
                && e.confidence >= cfg.min_event_confidence {
                Some(e)
            } else {
                None
            }
        }
}

/// The events, without identifiers, that the comparison of a frame with
/// the frame before gives: the field changes, then the data entries.
pub open spec fn delta_events(
    cfg: EventDetectionConfig,
    current: Seq<OCRResult>,
    previous: Seq<OCRResult>,
    frame_id: Seq<char>,
    timestamp: i64,
) -> Seq<DetectedEventView> {
    collect(current, change_of(cfg, previous, frame_id, timestamp)) + collect(
        current,
        entry_of(cfg, previous, frame_id, timestamp),
    )
}

/// The events, without identifiers, that the words of one region give: an
/// error display, a modal appearance and a form submission, each where a
/// word of its family occurs in the text in lower case.
pub open spec fn standalone_of(frame_id: Seq<char>, timestamp: i64) -> spec_fn(OCRResult) -> Seq<
    DetectedEventView,
> {
    |r: OCRResult|
        {
            let lowered = lowercase_of(r.text@);
            (if any_word_in(lowered, error_words()) {
                seq![
                    region_event(
                        r,
                        EventType::ErrorDisplay,
                        "error_dialog"@,
                        ERROR_WEIGHT as int,
                        frame_id,
                        timestamp,
                    ),
                ]
            } else {
                Seq::empty()
            }) + (if any_word_in(lowered, modal_words()) {
                seq![
                    region_event(
                        r,
                        EventType::ModalAppearance,
                        "modal_dialog"@,
                        MODAL_WEIGHT as int,
                        frame_id,
                        timestamp,
                    ),
                ]
            } else {
                Seq::empty()
            }) + (if any_word_in(lowered, submission_words()) {
                seq![
                    region_event(
                        r,
                        EventType::FormSubmission,
                        "form_submit"@,
                        SUBMISSION_WEIGHT as int,
                        frame_id,
                        timestamp,
                    ),
                ]
            } else {
                Seq::empty()
            })
        }
}

/// The kind of event that an error or dialog is reported as.
pub open spec fn reported_kind(kind: ErrorModalType) -> EventType {
    if kind.spec_is_error() {
        EventType::ErrorDisplay
    } else {
        EventType::ModalAppearance
    }
}

/// An error or dialog as a detected event: the target is the name of its
/// kind, an underscore and the name of its severity; the message is the new
/// value and its frame the evidence.
pub open spec fn converted(e: ErrorModalEventView) -> DetectedEventView {
    DetectedEventView {
        id: e.id,
        timestamp: e.timestamp,
        event_type: reported_kind(e.event_type),
        target: e.event_type.spec_name() + seq!['_'] + e.severity.spec_name(),
        value_from: None,
        value_to: Some(e.message),
        confidence: e.confidence,
        evidence_frames: seq![e.frame_id],
        metadata: e.metadata,
    }
}

/// Builds the event of a single region for a word family.
pub fn make_region_event(
    ocr: &OCRResult,
    kind: EventType,
    target: String,
    weight: u32,
    frame_id: &str,
    timestamp: i64,
    id: String,
) -> (e: DetectedEvent)
    requires
        weight <= UNIT,
    ensures
        e@ == region_event(*ocr, kind, target@, weight as int, frame_id@, timestamp).with_id(
            id@,
        ),
{
    let mut evidence: Vec<String> = Vec::new();
    evidence.push(String::from_str(frame_id));
    let e = DetectedEvent {
        id,
        timestamp,
        event_type: kind,
        target,
        value_from: None,
        value_to: Some(ocr.text.clone()),
        confidence: scale_by(ocr.confidence, weight),
        evidence_frames: evidence,
        metadata: create_metadata(ocr),
    };
    assert(e@.evidence_frames =~= seq![frame_id@]);
    e
}

/// Builds the event for a region whose text changed.
pub fn create_field_change_event(
    frame_id: &str,
    current: &OCRResult,
    previous: &OCRResult,
    timestamp: i64,
    id: String,
) -> (e: DetectedEvent)
    ensures
        e@ == field_change_event(*current, *previous, frame_id@, timestamp).with_id(id@),
        e.confidence <= UNIT,
{
    let dissimilarity = calculate_text_dissimilarity(current.text.as_str(), previous.text.as_str());
    let iou = current.roi.iou(&previous.roi);
    let mean: u64 = (current.confidence as u64 + previous.confidence as u64) / 2;
    let blend: u64 = (4 * mean + 3 * (iou as u64) + 3 * (dissimilarity as u64)) / 10;
    let confidence: u32 = if blend > UNIT as u64 {
        UNIT
    } else {
        blend as u32
    };
    let mut evidence: Vec<String> = Vec::new();
    evidence.push(String::from_str(frame_id));
    let e = DetectedEvent {
        id,
        timestamp,
        event_type: EventType::FieldChange,
        target: generate_field_id(&current.roi),
        value_from: Some(previous.text.clone()),
        value_to: Some(current.text.clone()),
        confidence,
        evidence_frames: evidence,
        metadata: create_metadata(current),
    };
    assert(e@.evidence_frames =~= seq![frame_id@]);
    e
}

/// An error or dialog as a detected event.
pub fn convert_error_modal_to_detected_event(error_modal_event: ErrorModalEvent) -> (e:
    DetectedEvent)
    ensures
        e@ == converted(error_modal_event@),
{
    let mut target = char_vec(error_modal_event.event_type.name());
    target.push('_');
    push_str_chars(&mut target, error_modal_event.severity.name());
    let kind = if error_modal_event.event_type.is_error() {
        EventType::ErrorDisplay
    } else {
        EventType::ModalAppearance
    };
    let ghost want = converted(error_modal_event@);
    let mut evidence: Vec<String> = Vec::new();
    evidence.push(error_modal_event.frame_id);
    let e = DetectedEvent {
        id: error_modal_event.id,
        timestamp: error_modal_event.timestamp,
        event_type: kind,
        target: string_of(&target),
        value_from: None,
        value_to: Some(error_modal_event.message),
        confidence: error_modal_event.confidence,
        evidence_frames: evidence,
        metadata: error_modal_event.metadata,
    };
    assert(e@.evidence_frames =~= want.evidence_frames);
    assert(e@.target =~= want.target);
    e
}

/// What is known of a field.
#[derive(Clone, Debug)]
pub struct FieldState {
    /// The text of the field.
    pub value: String,
    pub roi: BoundingBox,
    /// When the field was last seen, in nanoseconds since the epoch.
    pub last_updated: i64,
    /// The OCR confidence of the last observation, in millionths.
    pub confidence: u32,
    /// The frame of the last observation.
    pub frame_id: String,
}

/// The state of a field as a value.
pub struct FieldStateView {
    pub value: Seq<char>,
    pub roi: BoundingBox,
    pub last_updated: i64,
    pub confidence: u32,
    pub frame_id: Seq<char>,
}

impl View for FieldState {
    type V = FieldStateView;

    open spec fn view(&self) -> FieldStateView {
        FieldStateView {
            value: self.value@,
            roi: self.roi,
            last_updated: self.last_updated,
            confidence: self.confidence,
            frame_id: self.frame_id@,
        }
    }
}

/// A change of the text of a field.
#[derive(Clone, Debug)]
pub struct FieldChange {
    pub field_id: String,
    pub value_from: String,
    pub value_to: String,
    /// In nanoseconds since the epoch.
    pub timestamp: i64,
    /// The OCR confidence of the new text, in millionths.
    pub confidence: u32,
}

/// A change of a field as a value.
pub struct FieldChangeView {
    pub field_id: Seq<char>,
    pub value_from: Seq<char>,
    pub value_to: Seq<char>,
    pub timestamp: i64,
    pub confidence: u32,
}

impl View for FieldChange {
    type V = FieldChangeView;

    open spec fn view(&self) -> FieldChangeView {
        FieldChangeView {
            field_id: self.field_id@,
            value_from: self.value_from@,
            value_to: self.value_to@,
            timestamp: self.timestamp,
            confidence: self.confidence,
        }
    }
}

/// A field with its identifier.
#[derive(Clone, Debug)]
pub struct TrackedField {
    pub field_id: String,
    pub state: FieldState,
}

/// The fields seen so far, one for each region, and the changes of their texts.
#[derive(Debug)]
pub struct FieldTracker {
    pub fields: Vec<TrackedField>,
    pub change_history: Vec<FieldChange>,
}

/// What the tracker holds, as values.
pub struct FieldTrackerView {
    pub fields: Seq<(Seq<char>, FieldStateView)>,
    pub changes: Seq<FieldChangeView>,
}

impl View for FieldTracker {
    type V = FieldTrackerView;

    open spec fn view(&self) -> FieldTrackerView {
        FieldTrackerView {
            fields: Seq::new(
                self.fields@.len(),
                |i: int| (self.fields@[i].field_id@, self.fields@[i].state@),
            ),
            changes: Seq::new(self.change_history@.len(), |i: int| self.change_history@[i]@),
        }
    }
}

/// The position of the first field at region `roi`; the number of fields
/// where there is none.
pub open spec fn field_position(fields: Seq<(Seq<char>, FieldStateView)>, roi: BoundingBox) -> int
    decreases fields.len(),
{
    if fields.len() == 0 {
        0
    } else if fields[0].1.roi == roi {
        0
    } else {
        1 + field_position(fields.drop_first(), roi)
    }
}

proof fn lemma_field_position(fields: Seq<(Seq<char>, FieldStateView)>, roi: BoundingBox, i: int)
    requires
        0 <= i <= fields.len(),
        forall|k: int| 0 <= k < i ==> fields[k].1.roi != roi,
        i == fields.len() || fields[i].1.roi == roi,
    ensures
        field_position(fields, roi) == i,
    decreases i,
{
    if i > 0 {
        lemma_field_position(fields.drop_first(), roi, i - 1);
    }
}

/// The tracker after one region of a frame was seen: where the field at
/// the region is known and its text differs, the change is recorded; then
/// the state of the field is set to what was seen.
pub open spec fn track_one(t: FieldTrackerView, r: OCRResult, frame_id: Seq<char>, timestamp: i64) -> FieldTrackerView {
    let i = field_position(t.fields, r.roi);
    let state = FieldStateView {
        value: r.text@,
        roi: r.roi,
        last_updated: timestamp,
        confidence: r.confidence,
        frame_id,
    };
    FieldTrackerView {
        fields: if i < t.fields.len() {
            t.fields.update(i, (field_id_of(r.roi), state))
        } else {
            t.fields.push((field_id_of(r.roi), state))
        },
        changes: if i < t.fields.len() && t.fields[i].1.value != r.text@ {
            t.changes.push(
                FieldChangeView {
                    field_id: field_id_of(r.roi),
                    value_from: t.fields[i].1.value,
                    value_to: r.text@,
                    timestamp,
                    confidence: r.confidence,
                },
            )
        } else {
            t.changes
        },
    }
}

/// The tracker after the regions of a frame were seen, in order.
pub open spec fn track_all(t: FieldTrackerView, results: Seq<OCRResult>, frame_id: Seq<char>, timestamp: i64) -> FieldTrackerView
    decreases results.len(),
{
    if results.len() == 0 {
        t
    } else {
        track_one(
            track_all(t, results.drop_last(), frame_id, timestamp),
            results.last(),
            frame_id,
            timestamp,
        )
    }
}

impl FieldTracker {
    pub fn new() -> (t: FieldTracker)
        ensures
            t@.fields.len() == 0,
            t@.changes.len() == 0,
    {
        FieldTracker { fields: Vec::new(), change_history: Vec::new() }
    }

    /// The position of the field at region `roi`, or the number of fields.
    pub fn position(&self, roi: &BoundingBox) -> (i: usize)
        ensures
            i as int == field_position(self@.fields, *roi),
            i <= self.fields.len(),
    {
        let mut i: usize = 0;
        while i < self.fields.len()
            invariant
                i <= self.fields.len(),
                forall|k: int| 0 <= k < i ==> self@.fields[k].1.roi != *roi,
            decreases self.fields.len() - i,
        {
            if self.fields[i].state.roi == *roi {
                proof {
                    lemma_field_position(self@.fields, *roi, i as int);
                }
                return i;
            }
            i += 1;
        }
        proof {
            lemma_field_position(self@.fields, *roi, i as int);
        }
        i
    }

    /// Records what one region of a frame shows.
    pub fn observe(&mut self, r: &OCRResult, frame_id: &str, timestamp: i64)
        ensures
            final(self)@ == track_one(old(self)@, *r, frame_id@, timestamp),
    {
        let i = self.position(&r.roi);
        let field_id = generate_field_id(&r.roi);
        let state = FieldState {
            value: r.text.clone(),
            roi: r.roi,
            last_updated: timestamp,
            confidence: r.confidence,
            frame_id: String::from_str(frame_id),
        };
        let ghost want = track_one(old(self)@, *r, frame_id@, timestamp);
        if i < self.fields.len() {
            if !crate::text::str_eq(self.fields[i].state.value.as_str(), r.text.as_str()) {
                let change = FieldChange {
                    field_id: field_id.clone(),
                    value_from: self.fields[i].state.value.clone(),
                    value_to: r.text.clone(),
                    timestamp,
                    confidence: r.confidence,
                };
                self.change_history.push(change);
            }
            self.fields.set(i, TrackedField { field_id, state });
        } else {
            self.fields.push(TrackedField { field_id, state });
        }
        assert(self@.fields =~= want.fields);
        assert(self@.changes =~= want.changes);
    }

    /// Records what the regions of a frame show, in order.
    pub fn observe_all(&mut self, results: &Vec<OCRResult>, frame_id: &str, timestamp: i64)
        ensures
            final(self)@ == track_all(old(self)@, results@, frame_id@, timestamp),
    {
        let mut i: usize = 0;
        while i < results.len()
            invariant
                i <= results.len(),
                self@ == track_all(old(self)@, results@.take(i as int), frame_id@, timestamp),
            decreases results.len() - i,
        {
            assert(results@.take(i + 1).drop_last() =~= results@.take(i as int));
            self.observe(&results[i], frame_id, timestamp);
            i += 1;
        }
        assert(results@.take(results.len() as int) =~= results@);
    }
}

/// The text regions of an earlier frame.
#[derive(Clone, Debug)]
pub struct CachedFrame {
    pub frame_id: String,
    pub results: Vec<OCRResult>,
}

/// How many earlier frames the detector keeps.
pub const MAX_CACHED_FRAMES: usize = 10;

/// The kept frames as pairs of identifier and regions, oldest first.
pub open spec fn cache_view(cache: Seq<CachedFrame>) -> Seq<(Seq<char>, Seq<OCRResult>)> {
    Seq::new(cache.len(), |i: int| (cache[i].frame_id@, cache[i].results@))
}

/// The kept frames after one more frame: where ten are kept already, the
/// oldest leaves first.
pub open spec fn cache_after(
    cache: Seq<(Seq<char>, Seq<OCRResult>)>,
    frame_id: Seq<char>,
    results: Seq<OCRResult>,
) -> Seq<(Seq<char>, Seq<OCRResult>)> {
    if cache.len() >= MAX_CACHED_FRAMES {
        cache.drop_first().push((frame_id, results))
    } else {
        cache.push((frame_id, results))
    }
}

/// The events that the words of the regions give, without identifiers.
pub open spec fn standalone_events(results: Seq<OCRResult>, frame_id: Seq<char>, timestamp: i64) -> Seq<
    DetectedEventView,
> {
    concat_map(results, standalone_of(frame_id, timestamp))
}

/// The errors and dialogs of a frame as detected events, without identifiers.
pub open spec fn converted_all(events: Seq<ErrorModalEventView>) -> Seq<DetectedEventView> {
    Seq::new(events.len(), |i: int| converted(events[i]))
}

/// The events of a frame, without identifiers: nothing where no region
/// reaches the least OCR confidence; else what the comparison with the
/// frame kept last gives, then what the words of the regions give, then the
/// errors and dialogs.
pub open spec fn analysis_events(
    cfg: EventDetectionConfig,
    detector: ErrorModalDetector,
    cache: Seq<(Seq<char>, Seq<OCRResult>)>,
    results: Seq<OCRResult>,
    frame_id: Seq<char>,
    timestamp: i64,
    sw: u32,
    sh: u32,
) -> Seq<DetectedEventView> {
    let high = confident(results, cfg.min_ocr_confidence);
    if high.len() == 0 {
        Seq::empty()
    } else {
        (if cache.len() > 0 {
            delta_events(cfg, high, cache.last().1, frame_id, timestamp)
        } else {
            Seq::empty()
        }) + standalone_events(high, frame_id, timestamp) + converted_all(
            frame_events(detector.config, results, frame_id, timestamp, sw, sh),
        )
    }
}

/// The errors and dialogs as detected events, in order.
pub fn convert_all(found: Vec<ErrorModalEvent>) -> (events: Vec<DetectedEvent>)
    ensures
        sans_ids(events@) == converted_all(error_modal_sans_ids(found@)),
        event_views(events@) == Seq::new(found@.len(), |i: int| converted(found@[i]@)),
{
    let ghost all = found@;
    let mut events: Vec<DetectedEvent> = Vec::new();
    for item in it: found
        invariant
            it.seq() == all,
            events@.len() == it.index(),
            forall|k: int| 0 <= k < events@.len() ==> events@[k]@ == converted(all[k]@),
    {
        events.push(convert_error_modal_to_detected_event(item));
    }
    assert(sans_ids(events@) =~= converted_all(error_modal_sans_ids(all)));
    assert(event_views(events@) =~= Seq::new(all.len(), |i: int| converted(all[i]@)));
    events
}

/// Derives events from the text regions of successive frames.
#[derive(Debug)]
pub struct EventDetector {
    pub config: EventDetectionConfig,
    /// The regions of the frames seen last, oldest first.
    pub previous_frame_cache: Vec<CachedFrame>,
    pub field_tracker: FieldTracker,
    pub error_modal_detector: ErrorModalDetector,
}

impl EventDetector {
    /// A detector with the default configuration that has seen no frame
    /// yet; its detector of errors and dialogs has the default
    /// configuration too.
    pub fn new() -> (r: Result<EventDetector>)
        ensures
            r is Ok,
            r->Ok_0.config == EventDetectionConfig::spec_default(),
            r->Ok_0.previous_frame_cache@.len() == 0,
            r->Ok_0.field_tracker@.fields.len() == 0,
            r->Ok_0.field_tracker@.changes.len() == 0,
            r->Ok_0.error_modal_detector.config
                == crate::error_modal::ErrorModalDetectionConfig::spec_default(),
    {
        EventDetector::with_config(EventDetectionConfig::default())
    }

    /// A detector with the given configuration that has seen no frame yet.
    pub fn with_config(config: EventDetectionConfig) -> (r: Result<EventDetector>)
        ensures
            r is Ok,
            r->Ok_0.config == config,
            r->Ok_0.previous_frame_cache@.len() == 0,
            r->Ok_0.field_tracker@.fields.len() == 0,
            r->Ok_0.field_tracker@.changes.len() == 0,
            r->Ok_0.error_modal_detector.config
                == crate::error_modal::ErrorModalDetectionConfig::spec_default(),
    {
        match ErrorModalDetector::new() {
            Ok(error_modal_detector) => Ok(
                EventDetector {
                    config,
                    previous_frame_cache: Vec::new(),
                    field_tracker: FieldTracker::new(),
                    error_modal_detector,
                },
            ),
            Err(e) => Err(e),
        }
    }

    /// How similar two texts are, in millionths.
    pub fn calculate_text_similarity(&self, text1: &str, text2: &str) -> (s: u32)
        ensures
            s as int == text_similarity(text1@, text2@),
            s <= UNIT,
    {
        calculate_text_similarity(text1, text2)
    }

    /// Whether the text speaks of an error.
    pub fn is_error_message(&self, text: &str) -> (r: bool)
        ensures
            r == any_word_in(lowercase_of(text@), error_words()),
    {
        lowered_is_error_message(to_lowercase(text).as_str())
    }

    /// Whether the text belongs to a modal dialog.
    pub fn is_modal_dialog(&self, text: &str) -> (r: bool)
        ensures
            r == any_word_in(lowercase_of(text@), modal_words()),
    {
        lowered_is_modal_dialog(to_lowercase(text).as_str())
    }

    /// Whether the text marks the submission of a form.
    pub fn is_form_submission(&self, text: &str) -> (r: bool)
        ensures
            r == any_word_in(lowercase_of(text@), submission_words()),
    {
        lowered_is_form_submission(to_lowercase(text).as_str())
    }

    /// Whether the text looks like the label or the value of an input element.
    pub fn is_interactive_element(&self, text: &str) -> (r: bool)
        ensures
            r == interactive(lowercase_of(text@), all_numeric(text@)),
    {
        lowered_is_interactive(to_lowercase(text).as_str(), is_all_numeric(text))
    }

    /// The identifier of the field at a region.
    pub fn generate_field_id(&self, roi: &BoundingBox) -> (id: String)
        ensures
            id@ == field_id_of(*roi),
    {
        generate_field_id(roi)
    }

    /// The regions of the frame kept last.
    pub fn get_previous_frame_results(&self) -> (r: Option<&Vec<OCRResult>>)
        ensures
            match r {
                Some(v) => self.previous_frame_cache@.len() > 0 && v@ == cache_view(
                    self.previous_frame_cache@,
                ).last().1,
                None => self.previous_frame_cache@.len() == 0,
            },
    {
        let n = self.previous_frame_cache.len();
        if n == 0 {
            None
        } else {
            Some(&self.previous_frame_cache[n - 1].results)
        }
    }

    /// Keeps the regions of a frame for the comparison with the next.
    pub fn cache_frame_results(&mut self, frame_id: &str, results: Vec<OCRResult>)
        ensures
            cache_view(final(self).previous_frame_cache@) == cache_after(
                cache_view(old(self).previous_frame_cache@),
                frame_id@,
                results@,
            ),
            final(self).config == old(self).config,
            final(self).field_tracker == old(self).field_tracker,
            final(self).error_modal_detector == old(self).error_modal_detector,
    {
        let ghost before = cache_view(self.previous_frame_cache@);
        if self.previous_frame_cache.len() >= MAX_CACHED_FRAMES {
            let _ = self.previous_frame_cache.remove(0);
            assert(cache_view(self.previous_frame_cache@) =~= before.drop_first());
        }
        let ghost middle = cache_view(self.previous_frame_cache@);
        self.previous_frame_cache.push(CachedFrame { frame_id: String::from_str(frame_id), results });
        assert(cache_view(self.previous_frame_cache@) =~= middle.push((frame_id@, results@)));
    }

    /// The field changes recorded so far, oldest first.
    pub fn get_field_changes(&self) -> (r: &Vec<FieldChange>)
        ensures
            r == &self.field_tracker.change_history,
    {
        &self.field_tracker.change_history
    }

    /// The fields seen so far.
    pub fn get_field_states(&self) -> (r: &Vec<TrackedField>)
        ensures
            r == &self.field_tracker.fields,
    {
        &self.field_tracker.fields
    }

    /// Forgets the kept frames and the recorded changes; the fields stay.
    pub fn clear_cache(&mut self)
        ensures
            final(self).previous_frame_cache@.len() == 0,
            final(self).field_tracker.change_history@.len() == 0,
            final(self).field_tracker.fields == old(self).field_tracker.fields,
            final(self).config == old(self).config,
            final(self).error_modal_detector == old(self).error_modal_detector,
    {
        self.previous_frame_cache.clear();
        self.field_tracker.change_history.clear();
    }

    /// Records what the regions of a frame show.
    pub fn update_field_tracker(&mut self, frame_id: &str, ocr_results: &Vec<OCRResult>, timestamp: i64) -> (r:
        Result<()>)
        ensures
            r is Ok,
            final(self).field_tracker@ == track_all(
                old(self).field_tracker@,
                ocr_results@,
                frame_id@,
                timestamp,
            ),
            final(self).config == old(self).config,
            final(self).previous_frame_cache == old(self).previous_frame_cache,
            final(self).error_modal_detector == old(self).error_modal_detector,
    {
        self.field_tracker.observe_all(ocr_results, frame_id, timestamp);
        Ok(())
    }

    /// The events that the words of one region give, where it is known
    /// which word families occur in it.
    pub fn region_events_for(
        ocr: &OCRResult,
        is_error: bool,
        is_modal: bool,
        is_submission: bool,
        frame_id: &str,
        timestamp: i64,
    ) -> (events: Vec<DetectedEvent>)
        ensures
            sans_ids(events@) == (if is_error {
                seq![
                    region_event(
                        *ocr,
                        EventType::ErrorDisplay,
                        "error_dialog"@,
                        ERROR_WEIGHT as int,
                        frame_id@,
                        timestamp,
                    ),
                ]
            } else {
                Seq::empty()
            }) + (if is_modal {
                seq![
                    region_event(
                        *ocr,
                        EventType::ModalAppearance,
                        "modal_dialog"@,
                        MODAL_WEIGHT as int,
                        frame_id@,
                        timestamp,
                    ),
                ]
            } else {
                Seq::empty()
            }) + (if is_submission {
                seq![
                    region_event(
                        *ocr,
                        EventType::FormSubmission,
                        "form_submit"@,
                        SUBMISSION_WEIGHT as int,
                        frame_id@,
                        timestamp,
                    ),
                ]
            } else {
                Seq::empty()
            }),
    {
        let mut events: Vec<DetectedEvent> = Vec::new();
        if is_error {
            events.push(
                make_region_event(
                    ocr,
                    EventType::ErrorDisplay,
                    String::from_str("error_dialog"),
                    ERROR_WEIGHT,
                    frame_id,
                    timestamp,
                    fresh_id(),
                ),
            );
        }
        if is_modal {
            events.push(
                make_region_event(
                    ocr,
                    EventType::ModalAppearance,
                    String::from_str("modal_dialog"),
                    MODAL_WEIGHT,
                    frame_id,
                    timestamp,
                    fresh_id(),
                ),
            );
        }
        if is_submission {
            events.push(
                make_region_event(
                    ocr,
                    EventType::FormSubmission,
                    String::from_str("form_submit"),
                    SUBMISSION_WEIGHT,
                    frame_id,
                    timestamp,
                    fresh_id(),
                ),
            );
        }
        assert(sans_ids(events@) =~= (if is_error {
            seq![
                region_event(
                    *ocr,
                    EventType::ErrorDisplay,
                    "error_dialog"@,
                    ERROR_WEIGHT as int,
                    frame_id@,
                    timestamp,
                ),
            ]
        } else {
            Seq::empty()
        }) + (if is_modal {
            seq![
                region_event(
                    *ocr,
                    EventType::ModalAppearance,
                    "modal_dialog"@,
                    MODAL_WEIGHT as int,
                    frame_id@,
                    timestamp,
                ),
            ]
        } else {
            Seq::empty()
        }) + (if is_submission {
            seq![
                region_event(
                    *ocr,
                    EventType::FormSubmission,
                    "form_submit"@,
                    SUBMISSION_WEIGHT as int,
                    frame_id@,
                    timestamp,
                ),
            ]
        } else {
            Seq::empty()
        }));
        events
    }

    /// The events that the words of the regions give.
    pub fn detect_standalone_events(&self, frame_id: &str, ocr_results: &Vec<OCRResult>, timestamp: i64) -> (r:
        Result<Vec<DetectedEvent>>)
        ensures
            r is Ok,
            sans_ids(r->Ok_0@) == standalone_events(ocr_results@, frame_id@, timestamp),
    {
        let ghost f = standalone_of(frame_id@, timestamp);
        let mut events: Vec<DetectedEvent> = Vec::new();
        let mut i: usize = 0;
        assert(sans_ids(events@) =~= concat_map(ocr_results@.take(0), f));
        while i < ocr_results.len()
            invariant
                i <= ocr_results.len(),
                f == standalone_of(frame_id@, timestamp),
                sans_ids(events@) == concat_map(ocr_results@.take(i as int), f),
            decreases ocr_results.len() - i,
        {
            proof {
                lemma_concat_map_step(ocr_results@, f, i as int);
            }
            let result = &ocr_results[i];
            let lowered = to_lowercase(result.text.as_str());
            let mut more = EventDetector::region_events_for(
                result,
                lowered_is_error_message(lowered.as_str()),
                lowered_is_modal_dialog(lowered.as_str()),
                lowered_is_form_submission(lowered.as_str()),
                frame_id,
                timestamp,
            );
            let ghost before = sans_ids(events@);
            let ghost added = sans_ids(more@);
            events.append(&mut more);
            assert(sans_ids(events@) =~= before + added);
            i += 1;
        }
        assert(ocr_results@.take(ocr_results.len() as int) =~= ocr_results@);
        Ok(events)
    }

    /// The events that the comparison of a frame with the frame before gives.
    pub fn perform_delta_analysis(
        &self,
        frame_id: &str,
        current_results: &Vec<OCRResult>,
        previous_results: &Vec<OCRResult>,
        timestamp: i64,
    ) -> (r: Result<Vec<DetectedEvent>>)
        ensures
            r is Ok,
            sans_ids(r->Ok_0@) == delta_events(
                self.config,
                current_results@,
                previous_results@,
                frame_id@,
                timestamp,
            ),
    {
        let ghost f = change_of(self.config, previous_results@, frame_id@, timestamp);
        let ghost g = entry_of(self.config, previous_results@, frame_id@, timestamp);
        let mut events: Vec<DetectedEvent> = Vec::new();
        let mut i: usize = 0;
        assert(sans_ids(events@) =~= collect(current_results@.take(0), f));
        while i < current_results.len()
            invariant
                i <= current_results.len(),
                f == change_of(self.config, previous_results@, frame_id@, timestamp),
                sans_ids(events@) == collect(current_results@.take(i as int), f),
            decreases current_results.len() - i,
        {
            proof {
                lemma_collect_step(current_results@, f, i as int);
            }
            let current = &current_results[i];
            match find_best_match(&current.roi, previous_results, self.config.min_iou_threshold) {
                Some(j) => {
                    let previous = &previous_results[j];
                    if !crate::text::str_eq(current.text.as_str(), previous.text.as_str()) {
                        let event = create_field_change_event(
                            frame_id,
                            current,
                            previous,
                            timestamp,
                            fresh_id(),
                        );
                        if event.confidence >= self.config.min_event_confidence {
                            let ghost before = sans_ids(events@);
                            events.push(event);
                            assert(sans_ids(events@) =~= before.push(event@.sans_id()));
                        }
                    }
                },
                None => {},
            }
            i += 1;
        }
        assert(current_results@.take(current_results.len() as int) =~= current_results@);
        let ghost changes = sans_ids(events@);
        let mut entries: Vec<DetectedEvent> = Vec::new();
        let mut k: usize = 0;
        assert(sans_ids(entries@) =~= collect(current_results@.take(0), g));
        while k < current_results.len()
            invariant
                k <= current_results.len(),
                g == entry_of(self.config, previous_results@, frame_id@, timestamp),
                sans_ids(entries@) == collect(current_results@.take(k as int), g),
            decreases current_results.len() - k,
        {
            proof {
                lemma_collect_step(current_results@, g, k as int);
            }
            let current = &current_results[k];
            let unmatched = find_best_match(
                &current.roi,
                previous_results,
                self.config.min_iou_threshold,
            ).is_none();
            if unmatched && self.is_interactive_element(current.text.as_str()) {
                let event = make_region_event(
                    current,
                    EventType::DataEntry,
                    generate_field_id(&current.roi),
                    DATA_ENTRY_WEIGHT,
                    frame_id,
                    timestamp,
                    fresh_id(),
                );
                if event.confidence >= self.config.min_event_confidence {
                    let ghost before = sans_ids(entries@);
                    entries.push(event);
                    assert(sans_ids(entries@) =~= before.push(event@.sans_id()));
                }
            }
            k += 1;
        }
        assert(current_results@.take(current_results.len() as int) =~= current_results@);
        let ghost added = sans_ids(entries@);
        events.append(&mut entries);
        assert(sans_ids(events@) =~= changes + added);
        Ok(events)
    }

    /// Derives the events of a frame from its text regions, then records
    /// the regions for the next frame.
    pub fn analyze_frame(
        &mut self,
        frame_id: &str,
        ocr_results: &Vec<OCRResult>,
        timestamp: i64,
        screen_width: u32,
        screen_height: u32,
    ) -> (r: Result<Vec<DetectedEvent>>)
        ensures
            r is Ok,
            sans_ids(r->Ok_0@) == analysis_events(
                old(self).config,
                old(self).error_modal_detector,
                cache_view(old(self).previous_frame_cache@),
                ocr_results@,
                frame_id@,
                timestamp,
                screen_width,
                screen_height,
            ),
            final(self).config == old(self).config,
            final(self).error_modal_detector == old(self).error_modal_detector,
            confident(ocr_results@, old(self).config.min_ocr_confidence).len() == 0 ==> *final(self)
                == *old(self),
            confident(ocr_results@, old(self).config.min_ocr_confidence).len() > 0 ==> {
                &&& final(self).field_tracker@ == track_all(
                    old(self).field_tracker@,
                    confident(ocr_results@, old(self).config.min_ocr_confidence),
                    frame_id@,
                    timestamp,
                )
                &&& cache_view(final(self).previous_frame_cache@) == cache_after(
                    cache_view(old(self).previous_frame_cache@),
                    frame_id@,
                    confident(ocr_results@, old(self).config.min_ocr_confidence),
                )
            },
    {
        let high = filter_confident(ocr_results, self.config.min_ocr_confidence);
        if high.len() == 0 {
            let none: Vec<DetectedEvent> = Vec::new();
            assert(sans_ids(none@) =~= Seq::<DetectedEventView>::empty());
            return Ok(none);
        }
        let mut events: Vec<DetectedEvent> = Vec::new();
        assert(sans_ids(events@) =~= Seq::<DetectedEventView>::empty());
        let n = self.previous_frame_cache.len();
        if n > 0 {
            match self.perform_delta_analysis(
                frame_id,
                &high,
                &self.previous_frame_cache[n - 1].results,
                timestamp,
            ) {
                Ok(mut delta) => {
                    let ghost added = sans_ids(delta@);
                    events.append(&mut delta);
                    assert(sans_ids(events@) =~= added);
                },
                Err(e) => {
                    return Err(e);
                },
            }
        }
        let ghost first = sans_ids(events@);
        match self.detect_standalone_events(frame_id, &high, timestamp) {
            Ok(mut standalone) => {
                let ghost added = sans_ids(standalone@);
                events.append(&mut standalone);
                assert(sans_ids(events@) =~= first + added);
            },
            Err(e) => {
                return Err(e);
            },
        }
        let ghost second = sans_ids(events@);
        match self.error_modal_detector.detect_errors_and_modals(
            frame_id,
            ocr_results,
            timestamp,
            screen_width,
            screen_height,
        ) {
            Ok(found) => {
                let mut ordered = convert_all(found);
                let ghost added = sans_ids(ordered@);
                events.append(&mut ordered);
                assert(sans_ids(events@) =~= second + added);
            },
            Err(e) => {
                return Err(e);
            },
        }
        self.field_tracker.observe_all(&high, frame_id, timestamp);
        self.cache_frame_results(frame_id, high);
        Ok(events)
    }
}

/// Whether an event is well formed.
pub open spec fn is_well_formed() -> spec_fn(DetectedEventView) -> bool {
    |e: DetectedEventView| e.well_formed()
}

/// Whether the confidence of a region is a score between 0 and 1.
pub open spec fn valid_region() -> spec_fn(OCRResult) -> bool {
    |r: OCRResult| r.confidence <= UNIT
}

/// Every event that is derived from the regions of a frame has a
/// confidence between 0 and 1 and names at least one frame as evidence,
/// provided the OCR confidences of the regions are such scores themselves.
pub proof fn lemma_events_are_well_formed(
    cfg: EventDetectionConfig,
    detector: ErrorModalDetector,
    cache: Seq<(Seq<char>, Seq<OCRResult>)>,
    results: Seq<OCRResult>,
    frame_id: Seq<char>,
    timestamp: i64,
    sw: u32,
    sh: u32,
)
    requires
        forall|i: int| 0 <= i < results.len() ==> (#[trigger] results[i]).confidence <= UNIT,
    ensures
        forall|k: int|
            0 <= k < analysis_events(cfg, detector, cache, results, frame_id, timestamp, sw, sh).len()
                ==> (#[trigger] analysis_events(
                cfg,
                detector,
                cache,
                results,
                frame_id,
                timestamp,
                sw,
                sh,
            )[k]).well_formed(),
{
    let high = confident(results, cfg.min_ocr_confidence);
    let valid = valid_region();
    assert forall|i: int| 0 <= i < results.len() implies valid(#[trigger] results[i]) by {}
    lemma_keep_if_all(results, |r: OCRResult| r.confidence >= cfg.min_ocr_confidence, valid);
    assert forall|i: int| 0 <= i < high.len() implies (#[trigger] high[i]).confidence <= UNIT by {
        assert(valid(high[i]));
    }
    if high.len() > 0 {
        let wf = is_well_formed();
        let delta = if cache.len() > 0 {
            delta_events(cfg, high, cache.last().1, frame_id, timestamp)
        } else {
            Seq::empty()
        };
        if cache.len() > 0 {
            let previous = cache.last().1;
            let f = change_of(cfg, previous, frame_id, timestamp);
            let g = entry_of(cfg, previous, frame_id, timestamp);
            assert forall|i: int| 0 <= i < high.len() && g(#[trigger] high[i]) is Some implies wf(
                g(high[i])->Some_0,
            ) by {
                crate::units::lemma_scale_bounds(high[i].confidence as int, DATA_ENTRY_WEIGHT as int);
            }
            lemma_collect_all(high, f, wf);
            lemma_collect_all(high, g, wf);
            assert forall|k: int| 0 <= k < delta.len() implies wf(#[trigger] delta[k]) by {
                let first = collect(high, f);
                if k < first.len() {
                    assert(delta[k] == first[k]);
                    assert(wf(first[k]));
                } else {
                    assert(delta[k] == collect(high, g)[k - first.len()]);
                    assert(wf(collect(high, g)[k - first.len()]));
                }
            }
        }
        let s = standalone_of(frame_id, timestamp);
        assert forall|i: int, j: int| 0 <= i < high.len() && 0 <= j < s(high[i]).len() implies wf(
            #[trigger] s(#[trigger] high[i])[j],
        ) by {
            crate::units::lemma_scale_bounds(high[i].confidence as int, ERROR_WEIGHT as int);
            crate::units::lemma_scale_bounds(high[i].confidence as int, MODAL_WEIGHT as int);
            crate::units::lemma_scale_bounds(high[i].confidence as int, SUBMISSION_WEIGHT as int);
        }
        lemma_concat_map_all(high, s, wf);
        let standalone = standalone_events(high, frame_id, timestamp);
        let found = frame_events(detector.config, results, frame_id, timestamp, sw, sh);
        crate::error_modal::lemma_frame_events_confidence(
            detector.config,
            results,
            frame_id,
            timestamp,
            sw,
            sh,
        );
        let errors = converted_all(found);
        let all = analysis_events(cfg, detector, cache, results, frame_id, timestamp, sw, sh);
        assert forall|k: int| 0 <= k < all.len() implies (#[trigger] all[k]).well_formed() by {
            if k < delta.len() {
                assert(all[k] == delta[k]);
                assert(wf(delta[k]));
            } else if k < delta.len() + standalone.len() {
                assert(all[k] == standalone[k - delta.len()]);
                assert(wf(standalone[k - delta.len()]));
            } else {
                let t = k - delta.len() - standalone.len();
                assert(all[k] == errors[t]);
                assert(found[t].confidence <= UNIT);
            }
        }
    }
}

} // verus!
