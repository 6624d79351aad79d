//! Classification of error messages and modal dialogs in recognised text.

use vstd::prelude::*;
use crate::geometry::{max_int, min_int, BoundingBox};
use crate::ocr::{confident, filter_confident, OCRResult};
use crate::ids::fresh_id;
use crate::text::{
    char_vec,
    contains,
    decimal_string,
    prefix_before,
    push_str_chars,
    slice_chars,
    spec_contains,
    spec_decimal,
    string_of,
    take_before,
    to_lowercase,
    lowercase_of,
    trim,
    trim_chars,
};
use crate::units::{abs_int, trunc_div, UNIT};
use crate::error::{IndexerError, Result};
use crate::keyvalue::Metadata;
use crate::seqs::{collect, lemma_collect_all, lemma_collect_step};

verus! {

/// What kind of error or dialog a text region shows.
#[derive(Clone, Copy, Debug, PartialEq, Eq, Structural)]
pub enum ErrorModalType {
    SystemError,
    ApplicationError,
    NetworkError,
    AuthError,
    ValidationError,
    Warning,
    ConfirmationDialog,
    InfoDialog,
    AlertDialog,
    FileDialog,
    SettingsDialog,
    ProgressDialog,
    CustomDialog,
}

/// How serious an error or alert is.
#[derive(Clone, Copy, Debug, PartialEq, Eq, Structural)]
pub enum SeverityLevel {
    Critical,
    High,
    Medium,
    Low,
    Info,
}

impl ErrorModalType {
    /// The name of the kind, in lower case with underscores.
    pub open spec fn spec_name(self) -> Seq<char> {
        match self {
            ErrorModalType::SystemError => "system_error"@,
            ErrorModalType::ApplicationError => "application_error"@,
            ErrorModalType::NetworkError => "network_error"@,
            ErrorModalType::AuthError => "auth_error"@,
            ErrorModalType::ValidationError => "validation_error"@,
            ErrorModalType::Warning => "warning"@,
            ErrorModalType::ConfirmationDialog => "confirmation_dialog"@,
            ErrorModalType::InfoDialog => "info_dialog"@,
            ErrorModalType::AlertDialog => "alert_dialog"@,
            ErrorModalType::FileDialog => "file_dialog"@,
            ErrorModalType::SettingsDialog => "settings_dialog"@,
            ErrorModalType::ProgressDialog => "progress_dialog"@,
            ErrorModalType::CustomDialog => "custom_dialog"@,
        }
    }

    /// The name of the kind, in lower case with underscores.
    pub fn name(&self) -> (s: &'static str)
        ensures
            s@ == self.spec_name(),
    {
        match self {
            ErrorModalType::SystemError => "system_error",
            ErrorModalType::ApplicationError => "application_error",
            ErrorModalType::NetworkError => "network_error",
            ErrorModalType::AuthError => "auth_error",
            ErrorModalType::ValidationError => "validation_error",
            ErrorModalType::Warning => "warning",
            ErrorModalType::ConfirmationDialog => "confirmation_dialog",
            ErrorModalType::InfoDialog => "info_dialog",
            ErrorModalType::AlertDialog => "alert_dialog",
            ErrorModalType::FileDialog => "file_dialog",
            ErrorModalType::SettingsDialog => "settings_dialog",
            ErrorModalType::ProgressDialog => "progress_dialog",
            ErrorModalType::CustomDialog => "custom_dialog",
        }
    }

    /// The name of the kind as an owned string.
    pub fn to_string(&self) -> (s: String)
        ensures
            s@ == self.spec_name(),
    {
        String::from_str(self.name())
    }

    /// Whether the kind is an error rather than a dialog.
    pub open spec fn spec_is_error(self) -> bool {
        self is SystemError || self is ApplicationError || self is NetworkError || self is AuthError
            || self is ValidationError || self is Warning
    }

    /// Whether the kind is an error rather than a dialog.
    pub fn is_error(&self) -> (r: bool)
        ensures
            r == self.spec_is_error(),
    {
        match self {
            ErrorModalType::SystemError
            | ErrorModalType::ApplicationError
            | ErrorModalType::NetworkError
            | ErrorModalType::AuthError
            | ErrorModalType::ValidationError
            | ErrorModalType::Warning => true,
            _ => false,
        }
    }
}

impl SeverityLevel {
    /// The name of the level, in lower case.
    pub open spec fn spec_name(self) -> Seq<char> {
        match self {
            SeverityLevel::Critical => "critical"@,
            SeverityLevel::High => "high"@,
            SeverityLevel::Medium => "medium"@,
            SeverityLevel::Low => "low"@,
            SeverityLevel::Info => "info"@,
        }
    }

    /// The name of the level, in lower case.
    pub fn name(&self) -> (s: &'static str)
        ensures
            s@ == self.spec_name(),
    {
        match self {
            SeverityLevel::Critical => "critical",
            SeverityLevel::High => "high",
            SeverityLevel::Medium => "medium",
            SeverityLevel::Low => "low",
            SeverityLevel::Info => "info",
        }
    }

    /// The name of the level as an owned string.
    pub fn to_string(&self) -> (s: String)
        ensures
            s@ == self.spec_name(),
    {
        String::from_str(self.name())
    }
}

/// Whether `word` occurs in `hay`.
pub fn has_word(hay: &Vec<char>, word: &str) -> (r: bool)
    ensures
        r == spec_contains(hay@, word@),
{
    let w = char_vec(word);
    contains(hay, &w)
}

/// The kind of dialog that a lower-case text speaks of: the first of file,
/// settings, progress, confirmation, error, warning and alert whose words
/// occur in it, and an information dialog where none does.
pub open spec fn dialog_kind_of(lowered: Seq<char>) -> ErrorModalType {
    if spec_contains(lowered, "save"@) || spec_contains(lowered, "open"@) || spec_contains(
        lowered,
        "file"@,
    ) {
        ErrorModalType::FileDialog
    } else if spec_contains(lowered, "settings"@) || spec_contains(lowered, "preferences"@)
        || spec_contains(lowered, "options"@) {
        ErrorModalType::SettingsDialog
    } else if spec_contains(lowered, "progress"@) || spec_contains(lowered, "loading"@)
        || spec_contains(lowered, "%"@) {
        ErrorModalType::ProgressDialog
    } else if spec_contains(lowered, "confirm"@) || spec_contains(lowered, "are you sure"@) {
        ErrorModalType::ConfirmationDialog
    } else if spec_contains(lowered, "error"@) || spec_contains(lowered, "failed"@)
        || spec_contains(lowered, "invalid"@) {
        ErrorModalType::ApplicationError
    } else if spec_contains(lowered, "warning"@) || spec_contains(lowered, "caution"@) {
        ErrorModalType::Warning
    } else if spec_contains(lowered, "alert"@) || spec_contains(lowered, "attention"@) {
        ErrorModalType::AlertDialog
    } else {
        ErrorModalType::InfoDialog
    }
}

/// The severity that the words of a lower-case text call for.
pub open spec fn content_severity(lowered: Seq<char>) -> SeverityLevel {
    if spec_contains(lowered, "critical"@) || spec_contains(lowered, "fatal"@) || spec_contains(
        lowered,
        "crash"@,
    ) {
        SeverityLevel::Critical
    } else if spec_contains(lowered, "error"@) || spec_contains(lowered, "failed"@)
        || spec_contains(lowered, "denied"@) {
        SeverityLevel::High
    } else if spec_contains(lowered, "warning"@) || spec_contains(lowered, "caution"@)
        || spec_contains(lowered, "invalid"@) {
        SeverityLevel::Medium
    } else if spec_contains(lowered, "notice"@) || spec_contains(lowered, "attention"@) {
        SeverityLevel::Low
    } else {
        SeverityLevel::Info
    }
}

/// The kind of dialog that a text in lower case speaks of.
pub fn classify_lowered_dialog(lowered: &str) -> (kind: ErrorModalType)
    ensures
        kind == dialog_kind_of(lowered@),
{
    let l = char_vec(lowered);
    if has_word(&l, "save") || has_word(&l, "open") || has_word(&l, "file") {
        ErrorModalType::FileDialog
    } else if has_word(&l, "settings") || has_word(&l, "preferences") || has_word(&l, "options") {
        ErrorModalType::SettingsDialog
    } else if has_word(&l, "progress") || has_word(&l, "loading") || has_word(&l, "%") {
        ErrorModalType::ProgressDialog
    } else if has_word(&l, "confirm") || has_word(&l, "are you sure") {
        ErrorModalType::ConfirmationDialog
    } else if has_word(&l, "error") || has_word(&l, "failed") || has_word(&l, "invalid") {
        ErrorModalType::ApplicationError
    } else if has_word(&l, "warning") || has_word(&l, "caution") {
        ErrorModalType::Warning
    } else if has_word(&l, "alert") || has_word(&l, "attention") {
        ErrorModalType::AlertDialog
    } else {
        ErrorModalType::InfoDialog
    }
}

/// The severity that the words of a text in lower case call for.
pub fn severity_of_lowered(lowered: &str) -> (level: SeverityLevel)
    ensures
        level == content_severity(lowered@),
{
    let l = char_vec(lowered);
    if has_word(&l, "critical") || has_word(&l, "fatal") || has_word(&l, "crash") {
        SeverityLevel::Critical
    } else if has_word(&l, "error") || has_word(&l, "failed") || has_word(&l, "denied") {
        SeverityLevel::High
    } else if has_word(&l, "warning") || has_word(&l, "caution") || has_word(&l, "invalid") {
        SeverityLevel::Medium
    } else if has_word(&l, "notice") || has_word(&l, "attention") {
        SeverityLevel::Low
    } else {
        SeverityLevel::Info
    }
}

/// The title of a message: its first line without the whitespace around it;
/// where that is empty, the message itself, cut after 47 characters and
/// followed by three dots where it has more than 50.
pub open spec fn title_of(text: Seq<char>) -> Seq<char> {
    let first = trim(prefix_before(text, '\n'));
    if first.len() > 0 {
        first
    } else if text.len() > 50 {
        text.take(47) + "..."@
    } else {
        text
    }
}

/// The title of a message.
pub fn extract_title(text: &str) -> (title: String)
    ensures
        title@ == title_of(text@),
{
    let chars = char_vec(text);
    let line = take_before(&chars, '\n');
    let first = trim_chars(&line);
    if first.len() > 0 {
        string_of(&first)
    } else if chars.len() > 50 {
        let mut cut = slice_chars(&chars, 0, 47);
        assert(cut@ =~= text@.take(47));
        push_str_chars(&mut cut, "...");
        string_of(&cut)
    } else {
        string_of(&chars)
    }
}

/// What the detector looks for and how sure it must be.
#[derive(Clone, Copy, Debug, PartialEq, Eq, Structural)]
pub struct ErrorModalDetectionConfig {
    /// The least OCR confidence of a region that is looked at, in millionths.
    pub min_ocr_confidence: u32,
    /// The least confidence of a reported system, network or authentication error.
    pub min_error_confidence: u32,
    /// The least confidence of any other reported event.
    pub min_modal_confidence: u32,
    /// Whether the position and size of regions are judged too.
    pub enable_layout_detection: bool,
    /// The least width of a dialog, in pixels.
    pub min_dialog_width: u32,
    /// The least height of a dialog, in pixels.
    pub min_dialog_height: u32,
    /// The greatest width of a dialog as a share of the screen, in millionths.
    pub max_dialog_width_ratio: u32,
    /// The greatest height of a dialog as a share of the screen, in millionths.
    pub max_dialog_height_ratio: u32,
}

impl ErrorModalDetectionConfig {
    /// The configuration that a detector has unless another is given.
    pub open spec fn spec_default() -> ErrorModalDetectionConfig {
        ErrorModalDetectionConfig {
            min_ocr_confidence: 700_000,
            min_error_confidence: 600_000,
            min_modal_confidence: 600_000,
            enable_layout_detection: true,
            min_dialog_width: 200,
            min_dialog_height: 100,
            max_dialog_width_ratio: 800_000,
            max_dialog_height_ratio: 800_000,
        }
    }
}

impl Default for ErrorModalDetectionConfig {
    fn default() -> (c: Self)
        ensures
            c == ErrorModalDetectionConfig::spec_default(),
    {
        ErrorModalDetectionConfig {
            min_ocr_confidence: 700_000,
            min_error_confidence: 600_000,
            min_modal_confidence: 600_000,
            enable_layout_detection: true,
            min_dialog_width: 200,
            min_dialog_height: 100,
            max_dialog_width_ratio: 800_000,
            max_dialog_height_ratio: 800_000,
        }
    }
}

/// How much a region looks like a dialog by its position and size.
#[derive(Clone, Copy, Debug, PartialEq, Eq, Structural)]
pub struct LayoutAnalysis {
    /// Whether the score is at least 0.6.
    pub is_dialog_layout: bool,
    pub dialog_width: u32,
    pub dialog_height: u32,
    /// The horizontal position of the centre as a share of the screen width,
    /// in millionths, rounded towards zero; 0 for a screen of width 0.
    pub center_x_ratio: i64,
    /// The vertical position of the centre as a share of the screen height.
    pub center_y_ratio: i64,
    /// Whether the centre lies within a fifth of the screen from its centre.
    pub is_centered: bool,
    /// The score, in millionths.
    pub layout_confidence: u32,
}

/// Whether the box is neither too small nor too large for a dialog.
pub open spec fn size_ok(cfg: ErrorModalDetectionConfig, roi: BoundingBox, sw: int, sh: int) -> bool {
    &&& roi.width >= cfg.min_dialog_width
    &&& roi.height >= cfg.min_dialog_height
    &&& roi.width * (UNIT as int) <= sw * cfg.max_dialog_width_ratio
    &&& roi.height * (UNIT as int) <= sh * cfg.max_dialog_height_ratio
}

/// Whether the centre of the box lies within 20 % of the screen's extent
/// from the centre of the screen, in both directions.
pub open spec fn centered(roi: BoundingBox, sw: int, sh: int) -> bool {
    &&& 5 * abs_int(roi.center_x2() - sw) <= 2 * sw
    &&& 5 * abs_int(roi.center_y2() - sh) <= 2 * sh
}

/// Whether the width is between 0.8 and 3 times the height.
pub open spec fn aspect_ok(roi: BoundingBox) -> bool {
    &&& roi.height > 0
    &&& 5 * roi.width >= 4 * roi.height
    &&& roi.width <= 3 * roi.height
}

/// Whether the box keeps at least 50 pixels from every edge of the screen.
pub open spec fn has_margin(roi: BoundingBox, sw: int, sh: int) -> bool {
    &&& roi.x >= 50
    &&& roi.y >= 50
    &&& roi.right() <= sw - 50
    &&& roi.bottom() <= sh - 50
}

/// The layout score: 0.4 for the size, 0.3 for being centred, 0.2 for the
/// aspect ratio and 0.1 for the margin.
pub open spec fn layout_score(cfg: ErrorModalDetectionConfig, roi: BoundingBox, sw: int, sh: int) -> int {
    (if size_ok(cfg, roi, sw, sh) {
        400_000int
    } else {
        0
    }) + (if centered(roi, sw, sh) {
        300_000int
    } else {
        0
    }) + (if aspect_ok(roi) {
        200_000int
    } else {
        0
    }) + (if has_margin(roi, sw, sh) {
        100_000int
    } else {
        0
    })
}

pub open spec fn spec_analyze_layout(
    cfg: ErrorModalDetectionConfig,
    roi: BoundingBox,
    sw: u32,
    sh: u32,
) -> LayoutAnalysis {
    let score = layout_score(cfg, roi, sw as int, sh as int);
    LayoutAnalysis {
        is_dialog_layout: score >= 600_000,
        dialog_width: roi.width,
        dialog_height: roi.height,
        center_x_ratio: trunc_div(roi.center_x2() * (UNIT as int), 2 * sw) as i64,
        center_y_ratio: trunc_div(roi.center_y2() * (UNIT as int), 2 * sh) as i64,
        is_centered: centered(roi, sw as int, sh as int),
        layout_confidence: score as u32,
    }
}

/// `a / b` rounded towards zero, for a numerator of at most 2^34 millions.
fn ratio_towards_zero(a: i128, b: u64) -> (r: i64)
    requires
        -0x4_0000_0000 * 1_000_000 <= a <= 0x4_0000_0000 * 1_000_000,
    ensures
        r as int == trunc_div(a as int, b as int),
{
    if b == 0 {
        0
    } else if a >= 0 {
        let q: u128 = (a as u128) / (b as u128);
        assert(q <= a) by (nonlinear_arith)
            requires
                q == (a as int) / (b as int),
                a >= 0,
                b > 0,
        ;
        q as i64
    } else {
        let m: u128 = (-a) as u128;
        let q: u128 = m / (b as u128);
        assert(q <= m) by (nonlinear_arith)
            requires
                q == (m as int) / (b as int),
                m >= 0,
                b > 0,
        ;
        -(q as i64)
    }
}

/// Scores a region as a dialog by its size, position, aspect ratio and
/// margin on a screen of the given size.
pub fn analyze_layout(cfg: &ErrorModalDetectionConfig, roi: &BoundingBox, sw: u32, sh: u32) -> (a:
    LayoutAnalysis)
    ensures
        a == spec_analyze_layout(*cfg, *roi, sw, sh),
        a.layout_confidence <= UNIT,
{
    let w: u128 = roi.width as u128;
    let h: u128 = roi.height as u128;
    proof {
        assert(roi.width as int * 1_000_000 <= 0xffff_ffff * 1_000_000) by (nonlinear_arith)
            requires
                roi.width as int <= 0xffff_ffff,
        ;
        assert(roi.height as int * 1_000_000 <= 0xffff_ffff * 1_000_000) by (nonlinear_arith)
            requires
                roi.height as int <= 0xffff_ffff,
        ;
        assert(0 <= sw as int * cfg.max_dialog_width_ratio as int <= 0xffff_ffff * 0xffff_ffff)
            by (nonlinear_arith)
            requires
                0 <= sw as int <= 0xffff_ffff,
                0 <= cfg.max_dialog_width_ratio as int <= 0xffff_ffff,
        ;
        assert(0 <= sh as int * cfg.max_dialog_height_ratio as int <= 0xffff_ffff * 0xffff_ffff)
            by (nonlinear_arith)
            requires
                0 <= sh as int <= 0xffff_ffff,
                0 <= cfg.max_dialog_height_ratio as int <= 0xffff_ffff,
        ;
    }
    let size: bool = roi.width >= cfg.min_dialog_width && roi.height >= cfg.min_dialog_height && w
        * 1_000_000 <= (sw as u128) * (cfg.max_dialog_width_ratio as u128) && h * 1_000_000 <= (
    sh as u128) * (cfg.max_dialog_height_ratio as u128);
    let cx2: i64 = 2 * (roi.x as i64) + roi.width as i64;
    let cy2: i64 = 2 * (roi.y as i64) + roi.height as i64;
    let dx: i64 = if cx2 >= sw as i64 {
        cx2 - sw as i64
    } else {
        sw as i64 - cx2
    };
    let dy: i64 = if cy2 >= sh as i64 {
        cy2 - sh as i64
    } else {
        sh as i64 - cy2
    };
    let is_centered: bool = 5 * dx <= 2 * (sw as i64) && 5 * dy <= 2 * (sh as i64);
    let aspect: bool = roi.height > 0 && 5 * (roi.width as u64) >= 4 * (roi.height as u64) && (
    roi.width as u64) <= 3 * (roi.height as u64);
    let margin: bool = roi.x >= 50 && roi.y >= 50 && (roi.x as i64) + (roi.width as i64) <= (
    sw as i64) - 50 && (roi.y as i64) + (roi.height as i64) <= (sh as i64) - 50;
    let mut score: u32 = 0;
    if size {
        score = score + 400_000;
    }
    if is_centered {
        score = score + 300_000;
    }
    if aspect {
        score = score + 200_000;
    }
    if margin {
        score = score + 100_000;
    }
    proof {
        assert(cx2 as int * 1_000_000 == roi.center_x2() * (UNIT as int));
        assert(cy2 as int * 1_000_000 == roi.center_y2() * (UNIT as int));
    }
    let rx: i64 = ratio_towards_zero((cx2 as i128) * 1_000_000, 2 * (sw as u64));
    let ry: i64 = ratio_towards_zero((cy2 as i128) * 1_000_000, 2 * (sh as u64));
    LayoutAnalysis {
        is_dialog_layout: score >= 600_000,
        dialog_width: roi.width,
        dialog_height: roi.height,
        center_x_ratio: rx,
        center_y_ratio: ry,
        is_centered,
        layout_confidence: score,
    }
}

/// The families of the pattern catalogue.
#[derive(Clone, Copy, Debug, PartialEq, Eq, Structural)]
pub enum PatternFamily {
    CriticalError,
    NetworkError,
    AuthError,
    ValidationError,
    ApplicationError,
    Warning,
    ConfirmationDialog,
    FileDialog,
    SettingsDialog,
    ProgressDialog,
    InfoDialog,
    SystemAlert,
    AppAlert,
}

impl PatternFamily {
    /// The name of the family, in lower case with underscores.
    pub open spec fn spec_name(self) -> Seq<char> {
        match self {
            PatternFamily::CriticalError => "critical_error"@,
            PatternFamily::NetworkError => "network_error"@,
            PatternFamily::AuthError => "auth_error"@,
            PatternFamily::ValidationError => "validation_error"@,
            PatternFamily::ApplicationError => "application_error"@,
            PatternFamily::Warning => "warning"@,
            PatternFamily::ConfirmationDialog => "confirmation_dialog"@,
            PatternFamily::FileDialog => "file_dialog"@,
            PatternFamily::SettingsDialog => "settings_dialog"@,
            PatternFamily::ProgressDialog => "progress_dialog"@,
            PatternFamily::InfoDialog => "info_dialog"@,
            PatternFamily::SystemAlert => "system_alert"@,
            PatternFamily::AppAlert => "app_alert"@,
        }
    }

    /// The name of the family, in lower case with underscores.
    pub fn name(&self) -> (s: &'static str)
        ensures
            s@ == self.spec_name(),
    {
        match self {
            PatternFamily::CriticalError => "critical_error",
            PatternFamily::NetworkError => "network_error",
            PatternFamily::AuthError => "auth_error",
            PatternFamily::ValidationError => "validation_error",
            PatternFamily::ApplicationError => "application_error",
            PatternFamily::Warning => "warning",
            PatternFamily::ConfirmationDialog => "confirmation_dialog",
            PatternFamily::FileDialog => "file_dialog",
            PatternFamily::SettingsDialog => "settings_dialog",
            PatternFamily::ProgressDialog => "progress_dialog",
            PatternFamily::InfoDialog => "info_dialog",
            PatternFamily::SystemAlert => "system_alert",
            PatternFamily::AppAlert => "app_alert",
        }
    }

    /// The kind of event that a match of the family stands for.
    pub open spec fn spec_kind(self) -> ErrorModalType {
        match self {
            PatternFamily::CriticalError => ErrorModalType::SystemError,
            PatternFamily::NetworkError => ErrorModalType::NetworkError,
            PatternFamily::AuthError => ErrorModalType::AuthError,
            PatternFamily::ValidationError => ErrorModalType::ValidationError,
            PatternFamily::ApplicationError => ErrorModalType::ApplicationError,
            PatternFamily::Warning => ErrorModalType::Warning,
            PatternFamily::ConfirmationDialog => ErrorModalType::ConfirmationDialog,
            PatternFamily::FileDialog => ErrorModalType::FileDialog,
            PatternFamily::SettingsDialog => ErrorModalType::SettingsDialog,
            PatternFamily::ProgressDialog => ErrorModalType::ProgressDialog,
            PatternFamily::InfoDialog => ErrorModalType::InfoDialog,
            PatternFamily::SystemAlert => ErrorModalType::AlertDialog,
            PatternFamily::AppAlert => ErrorModalType::AlertDialog,
        }
    }

    /// The kind of event that a match of the family stands for.
    pub fn kind(&self) -> (k: ErrorModalType)
        ensures
            k == self.spec_kind(),
    {
        match self {
            PatternFamily::CriticalError => ErrorModalType::SystemError,
            PatternFamily::NetworkError => ErrorModalType::NetworkError,
            PatternFamily::AuthError => ErrorModalType::AuthError,
            PatternFamily::ValidationError => ErrorModalType::ValidationError,
            PatternFamily::ApplicationError => ErrorModalType::ApplicationError,
            PatternFamily::Warning => ErrorModalType::Warning,
            PatternFamily::ConfirmationDialog => ErrorModalType::ConfirmationDialog,
            PatternFamily::FileDialog => ErrorModalType::FileDialog,
            PatternFamily::SettingsDialog => ErrorModalType::SettingsDialog,
            PatternFamily::ProgressDialog => ErrorModalType::ProgressDialog,
            PatternFamily::InfoDialog => ErrorModalType::InfoDialog,
            PatternFamily::SystemAlert => ErrorModalType::AlertDialog,
            PatternFamily::AppAlert => ErrorModalType::AlertDialog,
        }
    }

    /// The severity that the family alone calls for: critical for critical
    /// errors, high for network and authentication errors and for alerts,
    /// medium for the other errors and for warnings, info for dialogs.
    pub open spec fn spec_severity(self) -> SeverityLevel {
        match self {
            PatternFamily::CriticalError => SeverityLevel::Critical,
            PatternFamily::NetworkError => SeverityLevel::High,
            PatternFamily::AuthError => SeverityLevel::High,
            PatternFamily::ValidationError => SeverityLevel::Medium,
            PatternFamily::ApplicationError => SeverityLevel::Medium,
            PatternFamily::Warning => SeverityLevel::Medium,
            PatternFamily::SystemAlert => SeverityLevel::High,
            PatternFamily::AppAlert => SeverityLevel::High,
            _ => SeverityLevel::Info,
        }
    }

    /// The severity that the family alone calls for.
    pub fn severity(&self) -> (l: SeverityLevel)
        ensures
            l == self.spec_severity(),
    {
        match self {
            PatternFamily::CriticalError => SeverityLevel::Critical,
            PatternFamily::NetworkError => SeverityLevel::High,
            PatternFamily::AuthError => SeverityLevel::High,
            PatternFamily::ValidationError => SeverityLevel::Medium,
            PatternFamily::ApplicationError => SeverityLevel::Medium,
            PatternFamily::Warning => SeverityLevel::Medium,
            PatternFamily::SystemAlert => SeverityLevel::High,
            PatternFamily::AppAlert => SeverityLevel::High,
            _ => SeverityLevel::Info,
        }
    }
}

/// One entry of the catalogue: a case-insensitive regular expression with
/// its family, its weight in millionths and a description.
#[derive(Clone, Copy, Debug)]
pub struct Pattern {
    pub expression: &'static str,
    pub family: PatternFamily,
    pub weight: u32,
    pub description: &'static str,
}

/// The patterns of error messages, from the most specific to the most general.
pub open spec fn error_catalogue() -> Seq<Pattern> {
    seq![
        Pattern {
            expression: r"(?i)(fatal|critical|crash|panic|abort)",
            family: PatternFamily::CriticalError,
            weight: 900_000,
            description: "Critical system errors",
        },
        Pattern {
            expression: r"(?i)(segmentation fault|access violation|null pointer)",
            family: PatternFamily::CriticalError,
            weight: 950_000,
            description: "Memory access errors",
        },
        Pattern {
            expression: r"(?i)(connection (failed|refused|timeout)|network (error|unavailable))",
            family: PatternFamily::NetworkError,
            weight: 800_000,
            description: "Network connectivity issues",
        },
        Pattern {
            expression: r"(?i)(dns (error|failed)|host not found|server not responding)",
            family: PatternFamily::NetworkError,
            weight: 850_000,
            description: "DNS and server errors",
        },
        Pattern {
            expression: r"(?i)(access denied|unauthorized|authentication (failed|required))",
            family: PatternFamily::AuthError,
            weight: 800_000,
            description: "Authentication failures",
        },
        Pattern {
            expression: r"(?i)(login (failed|invalid)|incorrect (password|credentials))",
            family: PatternFamily::AuthError,
            weight: 850_000,
            description: "Login errors",
        },
        Pattern {
            expression: r"(?i)(permission denied|insufficient privileges)",
            family: PatternFamily::AuthError,
            weight: 800_000,
            description: "Permission errors",
        },
        Pattern {
            expression: r"(?i)(invalid (\w+ )?(input|format|value)|validation (failed|error))",
            family: PatternFamily::ValidationError,
            weight: 700_000,
            description: "Input validation errors",
        },
        Pattern {
            expression: r"(?i)(required field|missing (value|input)|field cannot be empty)",
            family: PatternFamily::ValidationError,
            weight: 750_000,
            description: "Required field errors",
        },
        Pattern {
            expression: r"(?i)(error|failed|exception|problem)",
            family: PatternFamily::ApplicationError,
            weight: 600_000,
            description: "General application errors",
        },
        Pattern {
            expression: r"(?i)(cannot|unable to|failed to)",
            family: PatternFamily::ApplicationError,
            weight: 500_000,
            description: "Operation failures",
        },
        Pattern {
            expression: r"(?i)(warning|caution|notice)",
            family: PatternFamily::Warning,
            weight: 700_000,
            description: "Warning messages",
        },
    ]
}

/// The patterns of modal dialogs.
pub open spec fn modal_catalogue() -> Seq<Pattern> {
    seq![
        Pattern {
            expression: r"(?i)(confirm|are you sure|do you want to)",
            family: PatternFamily::ConfirmationDialog,
            weight: 800_000,
            description: "Confirmation dialogs",
        },
        Pattern {
            expression: r"(?i)(yes|no|ok|cancel|continue|abort)",
            family: PatternFamily::ConfirmationDialog,
            weight: 600_000,
            description: "Dialog buttons",
        },
        Pattern {
            expression: r"(?i)(open|save|choose|select) (file|folder|directory)",
            family: PatternFamily::FileDialog,
            weight: 850_000,
            description: "File selection dialogs",
        },
        Pattern {
            expression: r"(?i)(browse|upload|download)",
            family: PatternFamily::FileDialog,
            weight: 700_000,
            description: "File operation dialogs",
        },
        Pattern {
            expression: r"(?i)(settings|preferences|options|configuration)",
            family: PatternFamily::SettingsDialog,
            weight: 800_000,
            description: "Settings and preferences",
        },
        Pattern {
            expression: r"(?i)(apply|reset|default)",
            family: PatternFamily::SettingsDialog,
            weight: 600_000,
            description: "Settings actions",
        },
        Pattern {
            expression: r"(?i)(progress|loading|please wait|processing)",
            family: PatternFamily::ProgressDialog,
            weight: 800_000,
            description: "Progress indicators",
        },
        Pattern {
            expression: r"(?i)(\d+%|completed|remaining)",
            family: PatternFamily::ProgressDialog,
            weight: 700_000,
            description: "Progress measurements",
        },
        Pattern {
            expression: r"(?i)(information|about|help)",
            family: PatternFamily::InfoDialog,
            weight: 700_000,
            description: "Information dialogs",
        },
        Pattern {
            expression: r"(?i)(close|dismiss)",
            family: PatternFamily::InfoDialog,
            weight: 500_000,
            description: "Dialog close actions",
        },
    ]
}

/// The patterns of system and application alerts.
pub open spec fn alert_catalogue() -> Seq<Pattern> {
    seq![
        Pattern {
            expression: r"(?i)(system alert|system notification)",
            family: PatternFamily::SystemAlert,
            weight: 900_000,
            description: "System alerts",
        },
        Pattern {
            expression: r"(?i)(would like to access|permission required)",
            family: PatternFamily::SystemAlert,
            weight: 850_000,
            description: "Permission requests",
        },
        Pattern {
            expression: r"(?i)(security warning|security alert)",
            family: PatternFamily::SystemAlert,
            weight: 900_000,
            description: "Security warnings",
        },
        Pattern {
            expression: r"(?i)(application (error|warning)|app (crashed|stopped))",
            family: PatternFamily::AppAlert,
            weight: 800_000,
            description: "Application alerts",
        },
        Pattern {
            expression: r"(?i)(update available|new version)",
            family: PatternFamily::AppAlert,
            weight: 700_000,
            description: "Update notifications",
        },
    ]
}

/// The whole catalogue: errors, then dialogs, then alerts.
pub open spec fn catalogue() -> Seq<Pattern> {
    error_catalogue() + modal_catalogue() + alert_catalogue()
}

/// Whether the regular expression `expression` matches somewhere in `text`,
/// as the `regex` crate decides it; false for an expression that it does not
/// accept.
pub uninterp spec fn regex_is_match(expression: Seq<char>, text: Seq<char>) -> bool;

/// `regex::Regex::new` followed by `Regex::is_match`: compiles the expression
/// and searches the text for a match. Both are functions of their arguments
/// alone; an expression that does not compile matches nothing.
#[verifier::external_body]
pub(crate) fn expression_matches(expression: &str, text: &str) -> (r: bool)
    ensures
        r == regex_is_match(expression@, text@),
{
    match regex::Regex::new(expression) {
        Ok(re) => re.is_match(text),
        Err(_) => false,
    }
}

/// The patterns of `patterns` that match `text`, in order.
pub open spec fn matching(patterns: Seq<Pattern>, text: Seq<char>) -> Seq<Pattern> {
    crate::seqs::keep_if(patterns, |p: Pattern| regex_is_match(p.expression@, text))
}

/// The patterns of error messages.
pub fn error_patterns() -> (v: Vec<Pattern>)
    ensures
        v@ == error_catalogue(),
{
    let v = vec![
        Pattern {
            expression: r"(?i)(fatal|critical|crash|panic|abort)",
            family: PatternFamily::CriticalError,
            weight: 900_000,
            description: "Critical system errors",
        },
        Pattern {
            expression: r"(?i)(segmentation fault|access violation|null pointer)",
            family: PatternFamily::CriticalError,
            weight: 950_000,
            description: "Memory access errors",
        },
        Pattern {
            expression: r"(?i)(connection (failed|refused|timeout)|network (error|unavailable))",
            family: PatternFamily::NetworkError,
            weight: 800_000,
            description: "Network connectivity issues",
        },
        Pattern {
            expression: r"(?i)(dns (error|failed)|host not found|server not responding)",
            family: PatternFamily::NetworkError,
            weight: 850_000,
            description: "DNS and server errors",
        },
        Pattern {
            expression: r"(?i)(access denied|unauthorized|authentication (failed|required))",
            family: PatternFamily::AuthError,
            weight: 800_000,
            description: "Authentication failures",
        },
        Pattern {
            expression: r"(?i)(login (failed|invalid)|incorrect (password|credentials))",
            family: PatternFamily::AuthError,
            weight: 850_000,
            description: "Login errors",
        },
        Pattern {
            expression: r"(?i)(permission denied|insufficient privileges)",
            family: PatternFamily::AuthError,
            weight: 800_000,
            description: "Permission errors",
        },
        Pattern {
            expression: r"(?i)(invalid (\w+ )?(input|format|value)|validation (failed|error))",
            family: PatternFamily::ValidationError,
            weight: 700_000,
            description: "Input validation errors",
        },
        Pattern {
            expression: r"(?i)(required field|missing (value|input)|field cannot be empty)",
            family: PatternFamily::ValidationError,
            weight: 750_000,
            description: "Required field errors",
        },
        Pattern {
            expression: r"(?i)(error|failed|exception|problem)",
            family: PatternFamily::ApplicationError,
            weight: 600_000,
            description: "General application errors",
        },
        Pattern {
            expression: r"(?i)(cannot|unable to|failed to)",
            family: PatternFamily::ApplicationError,
            weight: 500_000,
            description: "Operation failures",
        },
        Pattern {
            expression: r"(?i)(warning|caution|notice)",
            family: PatternFamily::Warning,
            weight: 700_000,
            description: "Warning messages",
        },
    ];
    assert(v@ =~= error_catalogue());
    v
}

/// The patterns of modal dialogs.
pub fn modal_patterns() -> (v: Vec<Pattern>)
    ensures
        v@ == modal_catalogue(),
{
    let v = vec![
        Pattern {
            expression: r"(?i)(confirm|are you sure|do you want to)",
            family: PatternFamily::ConfirmationDialog,
            weight: 800_000,
            description: "Confirmation dialogs",
        },
        Pattern {
            expression: r"(?i)(yes|no|ok|cancel|continue|abort)",
            family: PatternFamily::ConfirmationDialog,
            weight: 600_000,
            description: "Dialog buttons",
        },
        Pattern {
            expression: r"(?i)(open|save|choose|select) (file|folder|directory)",
            family: PatternFamily::FileDialog,
            weight: 850_000,
            description: "File selection dialogs",
        },
        Pattern {
            expression: r"(?i)(browse|upload|download)",
            family: PatternFamily::FileDialog,
            weight: 700_000,
            description: "File operation dialogs",
        },
        Pattern {
            expression: r"(?i)(settings|preferences|options|configuration)",
            family: PatternFamily::SettingsDialog,
            weight: 800_000,
            description: "Settings and preferences",
        },
        Pattern {
            expression: r"(?i)(apply|reset|default)",
            family: PatternFamily::SettingsDialog,
            weight: 600_000,
            description: "Settings actions",
        },
        Pattern {
            expression: r"(?i)(progress|loading|please wait|processing)",
            family: PatternFamily::ProgressDialog,
            weight: 800_000,
            description: "Progress indicators",
        },
        Pattern {
            expression: r"(?i)(\d+%|completed|remaining)",
            family: PatternFamily::ProgressDialog,
            weight: 700_000,
            description: "Progress measurements",
        },
        Pattern {
            expression: r"(?i)(information|about|help)",
            family: PatternFamily::InfoDialog,
            weight: 700_000,
            description: "Information dialogs",
        },
        Pattern {
            expression: r"(?i)(close|dismiss)",
            family: PatternFamily::InfoDialog,
            weight: 500_000,
            description: "Dialog close actions",
        },
    ];
    assert(v@ =~= modal_catalogue());
    v
}

/// The patterns of system and application alerts.
pub fn system_alert_patterns() -> (v: Vec<Pattern>)
    ensures
        v@ == alert_catalogue(),
{
    let v = vec![
        Pattern {
            expression: r"(?i)(system alert|system notification)",
            family: PatternFamily::SystemAlert,
            weight: 900_000,
            description: "System alerts",
        },
        Pattern {
            expression: r"(?i)(would like to access|permission required)",
            family: PatternFamily::SystemAlert,
            weight: 850_000,
            description: "Permission requests",
        },
        Pattern {
            expression: r"(?i)(security warning|security alert)",
            family: PatternFamily::SystemAlert,
            weight: 900_000,
            description: "Security warnings",
        },
        Pattern {
            expression: r"(?i)(application (error|warning)|app (crashed|stopped))",
            family: PatternFamily::AppAlert,
            weight: 800_000,
            description: "Application alerts",
        },
        Pattern {
            expression: r"(?i)(update available|new version)",
            family: PatternFamily::AppAlert,
            weight: 700_000,
            description: "Update notifications",
        },
    ];
    assert(v@ =~= alert_catalogue());
    v
}

/// The patterns of `patterns` that match `text`, in order.
pub fn matching_patterns(patterns: &Vec<Pattern>, text: &str) -> (found: Vec<Pattern>)
    ensures
        found@ == matching(patterns@, text@),
{
    let mut found: Vec<Pattern> = Vec::new();
    let mut i: usize = 0;
    while i < patterns.len()
        invariant
            i <= patterns.len(),
            found@ == matching(patterns@.take(i as int), text@),
        decreases patterns.len() - i,
    {
        proof {
            crate::seqs::lemma_keep_if_step(
                patterns@,
                |p: Pattern| regex_is_match(p.expression@, text@),
                i as int,
            );
        }
        let p = patterns[i];
        if expression_matches(p.expression, text) {
            found.push(p);
        }
        i += 1;
    }
    assert(patterns@.take(patterns.len() as int) =~= patterns@);
    found
}

/// The patterns of the whole catalogue that match `text`: errors first, then
/// dialogs, then alerts.
pub open spec fn catalogue_matches(text: Seq<char>) -> Seq<Pattern> {
    matching(error_catalogue(), text) + matching(modal_catalogue(), text) + matching(
        alert_catalogue(),
        text,
    )
}

/// The patterns of the whole catalogue that match `text`.
pub fn find_matches(text: &str) -> (found: Vec<Pattern>)
    ensures
        found@ == catalogue_matches(text@),
{
    let mut found = matching_patterns(&error_patterns(), text);
    let mut modal = matching_patterns(&modal_patterns(), text);
    let mut alert = matching_patterns(&system_alert_patterns(), text);
    found.append(&mut modal);
    found.append(&mut alert);
    found
}

/// A pattern that matched, as it is recorded in an event.
#[derive(Clone, Debug)]
pub struct PatternMatch {
    /// The name of the family of the pattern.
    pub pattern_type: String,
    /// The text in which it matched.
    pub matched_text: String,
    /// The weight of the pattern, in millionths.
    pub confidence_weight: u32,
    /// What the pattern detects.
    pub description: String,
}

/// A matched pattern as a value.
pub struct PatternMatchView {
    pub pattern_type: Seq<char>,
    pub matched_text: Seq<char>,
    pub confidence_weight: u32,
    pub description: Seq<char>,
}

impl View for PatternMatch {
    type V = PatternMatchView;

    open spec fn view(&self) -> PatternMatchView {
        PatternMatchView {
            pattern_type: self.pattern_type@,
            matched_text: self.matched_text@,
            confidence_weight: self.confidence_weight,
            description: self.description@,
        }
    }
}

/// A detected error or dialog.
#[derive(Clone, Debug)]
pub struct ErrorModalEvent {
    pub id: String,
    /// The time of the frame, in nanoseconds since the epoch.
    pub timestamp: i64,
    pub event_type: ErrorModalType,
    pub severity: SeverityLevel,
    pub title: String,
    pub message: String,
    /// The confidence of the detection, in millionths.
    pub confidence: u32,
    pub frame_id: String,
    pub roi: BoundingBox,
    pub metadata: Metadata,
    pub pattern_matches: Vec<PatternMatch>,
    pub layout_analysis: Option<LayoutAnalysis>,
}

/// An error or dialog as a value.
pub struct ErrorModalEventView {
    pub id: Seq<char>,
    pub timestamp: i64,
    pub event_type: ErrorModalType,
    pub severity: SeverityLevel,
    pub title: Seq<char>,
    pub message: Seq<char>,
    pub confidence: u32,
    pub frame_id: Seq<char>,
    pub roi: BoundingBox,
    pub metadata: Seq<(Seq<char>, Seq<char>)>,
    pub pattern_matches: Seq<PatternMatchView>,
    pub layout_analysis: Option<LayoutAnalysis>,
}

impl ErrorModalEventView {
    /// The same event under another identifier.
    pub open spec fn with_id(self, id: Seq<char>) -> ErrorModalEventView {
        ErrorModalEventView { id, ..self }
    }

    /// The event without its identifier.
    pub open spec fn sans_id(self) -> ErrorModalEventView {
        self.with_id(Seq::empty())
    }
}

impl View for ErrorModalEvent {
    type V = ErrorModalEventView;

    open spec fn view(&self) -> ErrorModalEventView {
        ErrorModalEventView {
            id: self.id@,
            timestamp: self.timestamp,
            event_type: self.event_type,
            severity: self.severity,
            title: self.title@,
            message: self.message@,
            confidence: self.confidence,
            frame_id: self.frame_id@,
            roi: self.roi,
            metadata: self.metadata@,
            pattern_matches: Seq::new(
                self.pattern_matches@.len(),
                |i: int| self.pattern_matches@[i]@,
            ),
            layout_analysis: self.layout_analysis,
        }
    }
}

/// The events of `events` without their identifiers.
pub open spec fn sans_ids(events: Seq<ErrorModalEvent>) -> Seq<ErrorModalEventView> {
    Seq::new(events.len(), |i: int| events[i]@.sans_id())
}

/// The pattern that decides what a text region shows: among the matched
/// patterns the one of the greatest weight, and among several of that
/// weight the last.
pub open spec fn decisive(ps: Seq<Pattern>) -> Pattern
    recommends
        ps.len() > 0,
    decreases ps.len(),
{
    if ps.len() <= 1 {
        ps[0]
    } else {
        let d = decisive(ps.drop_last());
        if ps.last().weight >= d.weight {
            ps.last()
        } else {
            d
        }
    }
}

/// The sum of the weights of the patterns.
pub open spec fn weight_sum(ps: Seq<Pattern>) -> int
    decreases ps.len(),
{
    if ps.len() == 0 {
        0
    } else {
        weight_sum(ps.drop_last()) + ps.last().weight
    }
}

/// The confidence that the matched patterns give: the mean of their
/// weights, rounded down and at most 1.
pub open spec fn pattern_confidence(ps: Seq<Pattern>) -> int {
    if ps.len() == 0 {
        0
    } else if weight_sum(ps) / (ps.len() as int) > UNIT {
        UNIT as int
    } else {
        weight_sum(ps) / (ps.len() as int)
    }
}

/// The severity of an event: what the words of its text call for, and
/// what the family of the decisive pattern calls for where the words call
/// for nothing.
pub open spec fn resolved_severity(family: PatternFamily, lowered: Seq<char>) -> SeverityLevel {
    if content_severity(lowered) is Info {
        family.spec_severity()
    } else {
        content_severity(lowered)
    }
}

/// 0.7 of the pattern confidence and 0.3 of the OCR confidence, at most 1.
pub open spec fn blended_confidence(pattern_conf: int, ocr_conf: int) -> int {
    let b = (7 * pattern_conf + 3 * ocr_conf) / 10;
    if b > UNIT as int {
        UNIT as int
    } else {
        b
    }
}

/// The confidence that an event of the given kind must reach.
pub open spec fn threshold_for(cfg: ErrorModalDetectionConfig, kind: ErrorModalType) -> u32 {
    if kind is SystemError || kind is NetworkError || kind is AuthError {
        cfg.min_error_confidence
    } else {
        cfg.min_modal_confidence
    }
}

/// The records of the matched patterns.
pub open spec fn pattern_notes(ps: Seq<Pattern>, text: Seq<char>) -> Seq<PatternMatchView> {
    Seq::new(
        ps.len(),
        |i: int|
            PatternMatchView {
                pattern_type: ps[i].family.spec_name(),
                matched_text: text,
                confidence_weight: ps[i].weight,
                description: ps[i].description@,
            },
    )
}

/// The layout of a text region where the analysis of layouts is switched
/// on and the region has the layout of a dialog; none else.
pub open spec fn dialog_layout_of(cfg: ErrorModalDetectionConfig, roi: BoundingBox, sw: u32, sh: u32) -> Option<
    LayoutAnalysis,
> {
    if cfg.enable_layout_detection && spec_analyze_layout(cfg, roi, sw, sh).is_dialog_layout {
        Some(spec_analyze_layout(cfg, roi, sw, sh))
    } else {
        None
    }
}

/// The event, without identifier, for a text region in which the patterns
/// `ps` matched: none where no pattern matched or the confidence is under
/// the threshold. The decisive pattern gives the kind. The threshold is
/// that of the kind of the pattern that matched last, which among the
/// patterns of errors is the most general one. `lowered` is the text in
/// lower case.
pub open spec fn text_event(
    cfg: ErrorModalDetectionConfig,
    ps: Seq<Pattern>,
    ocr: OCRResult,
    lowered: Seq<char>,
    frame_id: Seq<char>,
    timestamp: i64,
    sw: u32,
    sh: u32,
) -> Option<ErrorModalEventView> {
    if ps.len() == 0 {
        None
    } else {
        let family = decisive(ps).family;
        let confidence = blended_confidence(pattern_confidence(ps), ocr.confidence as int);
        if confidence < threshold_for(cfg, ps.last().family.spec_kind()) {
            None
        } else {
            Some(
                ErrorModalEventView {
                    id: Seq::empty(),
                    timestamp,
                    event_type: family.spec_kind(),
                    severity: resolved_severity(family, lowered),
                    title: title_of(ocr.text@),
                    message: ocr.text@,
                    confidence: confidence as u32,
                    frame_id,
                    roi: ocr.roi,
                    metadata: seq![
                        ("language"@, ocr.language@),
                        ("processor"@, ocr.processor@),
                        ("screen_width"@, spec_decimal(sw as nat)),
                        ("screen_height"@, spec_decimal(sh as nat)),
                        ("pattern_count"@, spec_decimal(ps.len())),
                    ],
                    pattern_matches: pattern_notes(ps, ocr.text@),
                    layout_analysis: dialog_layout_of(cfg, ocr.roi, sw, sh),
                },
            )
        }
    }
}

/// The pattern that decides what a text region shows.
pub fn find_decisive(ps: &Vec<Pattern>) -> (d: Pattern)
    requires
        ps.len() > 0,
    ensures
        d == decisive(ps@),
{
    let mut d = ps[0];
    assert(ps@.take(1) =~= seq![ps@[0]]);
    let mut i: usize = 1;
    while i < ps.len()
        invariant
            1 <= i <= ps.len(),
            d == decisive(ps@.take(i as int)),
        decreases ps.len() - i,
    {
        assert(ps@.take(i + 1).drop_last() =~= ps@.take(i as int));
        if ps[i].weight >= d.weight {
            d = ps[i];
        }
        i += 1;
    }
    assert(ps@.take(ps.len() as int) =~= ps@);
    d
}

/// The mean of the weights of the patterns, at most 1.
pub fn mean_weight(ps: &Vec<Pattern>) -> (c: u32)
    ensures
        c as int == pattern_confidence(ps@),
        c <= UNIT,
{
    if ps.len() == 0 {
        return 0;
    }
    let mut sum: u128 = 0;
    let mut i: usize = 0;
    assert(ps@.take(0).len() == 0);
    while i < ps.len()
        invariant
            i <= ps.len(),
            sum as int == weight_sum(ps@.take(i as int)),
            0 <= sum <= i * 0xffff_ffff,
        decreases ps.len() - i,
    {
        assert(ps@.take(i + 1).drop_last() =~= ps@.take(i as int));
        assert((i + 1) * 0xffff_ffff == i * 0xffff_ffff + 0xffff_ffff) by (nonlinear_arith);
        sum = sum + ps[i].weight as u128;
        i += 1;
    }
    assert(ps@.take(ps.len() as int) =~= ps@);
    let mean: u128 = sum / (ps.len() as u128);
    if mean > UNIT as u128 {
        UNIT
    } else {
        mean as u32
    }
}

/// The records of the matched patterns.
fn note_patterns(ps: &Vec<Pattern>, text: &String) -> (notes: Vec<PatternMatch>)
    ensures
        Seq::new(notes@.len(), |i: int| notes@[i]@) == pattern_notes(ps@, text@),
{
    let mut notes: Vec<PatternMatch> = Vec::new();
    let mut i: usize = 0;
    while i < ps.len()
        invariant
            i <= ps.len(),
            notes.len() == i,
            forall|k: int| 0 <= k < i ==> notes@[k]@ == pattern_notes(ps@, text@)[k],
        decreases ps.len() - i,
    {
        let p = ps[i];
        notes.push(
            PatternMatch {
                pattern_type: String::from_str(p.family.name()),
                matched_text: text.clone(),
                confidence_weight: p.weight,
                description: String::from_str(p.description),
            },
        );
        i += 1;
    }
    assert(Seq::new(notes@.len(), |i: int| notes@[i]@) =~= pattern_notes(ps@, text@));
    notes
}

/// Detects error messages and modal dialogs in the text regions of a frame.
#[derive(Clone, Copy, Debug)]
pub struct ErrorModalDetector {
    pub config: ErrorModalDetectionConfig,
}

impl ErrorModalDetector {
    /// A detector with the default configuration.
    pub fn new() -> (r: Result<ErrorModalDetector>)
        ensures
            r is Ok,
            r->Ok_0.config == ErrorModalDetectionConfig::spec_default(),
    {
        ErrorModalDetector::with_config(ErrorModalDetectionConfig::default())
    }

    /// A detector with the given configuration.
    pub fn with_config(config: ErrorModalDetectionConfig) -> (r: Result<ErrorModalDetector>)
        ensures
            r is Ok,
            r->Ok_0.config == config,
    {
        Ok(ErrorModalDetector { config })
    }

    /// The event for a text region in which the patterns `matches` matched,
    /// under the identifier `id`; `lowered` is the text in lower case.
    pub fn assess_matches(
        &self,
        matches: &Vec<Pattern>,
        ocr: &OCRResult,
        lowered: &str,
        frame_id: &str,
        timestamp: i64,
        screen_width: u32,
        screen_height: u32,
        id: String,
    ) -> (r: Option<ErrorModalEvent>)
        ensures
            match text_event(
                self.config,
                matches@,
                *ocr,
                lowered@,
                frame_id@,
                timestamp,
                screen_width,
                screen_height,
            ) {
                Some(e) => r is Some && r->Some_0@ == e.with_id(id@),
                None => r is None,
            },
    {
        let n: usize = matches.len();
        if n == 0 {
            return None;
        }
        let chosen = find_decisive(matches);
        let pattern_conf: u64 = mean_weight(matches) as u64;
        let blend: u64 = (7 * pattern_conf + 3 * (ocr.confidence as u64)) / 10;
        let confidence: u32 = if blend > UNIT as u64 {
            UNIT
        } else {
            blend as u32
        };
        let family = chosen.family;
        let kind = family.kind();
        let threshold: u32 = match matches[n - 1].family.kind() {
            ErrorModalType::SystemError | ErrorModalType::NetworkError | ErrorModalType::AuthError => {
                self.config.min_error_confidence
            },
            _ => self.config.min_modal_confidence,
        };
        if confidence < threshold {
            return None;
        }
        let layout_analysis = if self.config.enable_layout_detection {
            let layout = analyze_layout(&self.config, &ocr.roi, screen_width, screen_height);
            if layout.is_dialog_layout {
                Some(layout)
            } else {
                None
            }
        } else {
            None
        };
        let mut metadata = Metadata::new();
        metadata.add("language", ocr.language.clone());
        metadata.add("processor", ocr.processor.clone());
        metadata.add("screen_width", decimal_string(screen_width as u64));
        metadata.add("screen_height", decimal_string(screen_height as u64));
        metadata.add("pattern_count", decimal_string(n as u64));
        let event = ErrorModalEvent {
            id,
            timestamp,
            event_type: kind,
            severity: match severity_of_lowered(lowered) {
                SeverityLevel::Info => family.severity(),
                level => level,
            },
            title: extract_title(ocr.text.as_str()),
            message: ocr.text.clone(),
            confidence,
            frame_id: String::from_str(frame_id),
            roi: ocr.roi,
            metadata,
            pattern_matches: note_patterns(matches, &ocr.text),
            layout_analysis,
        };
        proof {
            let want = text_event(
                self.config,
                matches@,
                *ocr,
                lowered@,
                frame_id@,
                timestamp,
                screen_width,
                screen_height,
            )->Some_0;
            assert(event@.metadata =~= want.metadata);
            assert(event@ == want.with_id(id@));
        }
        Some(event)
    }

    /// Looks for the patterns of the catalogue in one text region and
    /// reports the error or dialog that they indicate, if any.
    pub fn analyze_text_for_errors_modals(
        &self,
        frame_id: &str,
        ocr_result: &OCRResult,
        timestamp: i64,
        screen_width: u32,
        screen_height: u32,
    ) -> (r: Option<ErrorModalEvent>)
        ensures
            match text_event(
                self.config,
                catalogue_matches(ocr_result.text@),
                *ocr_result,
                lowercase_of(ocr_result.text@),
                frame_id@,
                timestamp,
                screen_width,
                screen_height,
            ) {
                Some(e) => r is Some && r->Some_0@.sans_id() == e,
                None => r is None,
            },
    {
        let matches = find_matches(ocr_result.text.as_str());
        let lowered = to_lowercase(ocr_result.text.as_str());
        self.assess_matches(
            &matches,
            ocr_result,
            lowered.as_str(),
            frame_id,
            timestamp,
            screen_width,
            screen_height,
            fresh_id(),
        )
    }
}

/// The boxes of the results, in order.
pub open spec fn rois_of(results: Seq<OCRResult>) -> Seq<BoundingBox> {
    Seq::new(results.len(), |i: int| results[i].roi)
}

/// How close two centres must be for two regions to belong together, in pixels.
pub const GROUP_RADIUS: u32 = 100;

/// Whether the centre of box `j` is at most 100 pixels away from the
/// centre of a box of `group`.
pub open spec fn near_group(rois: Seq<BoundingBox>, group: Seq<usize>, j: int) -> bool {
    exists|k: int|
        0 <= k < group.len() && (#[trigger] rois[group[k] as int]).spec_centers_within(
            rois[j],
            GROUP_RADIUS as int,
        )
}

/// The group `group` after the boxes from `j` on were looked at in order:
/// each unused box that is near the group as it then stands joins it. The
/// second component says which boxes are used afterwards.
pub open spec fn grow_group(rois: Seq<BoundingBox>, used: Seq<bool>, group: Seq<usize>, j: nat) -> (
    Seq<usize>,
    Seq<bool>,
)
    decreases rois.len() - j,
{
    if j >= rois.len() {
        (group, used)
    } else if !used[j as int] && near_group(rois, group, j as int) {
        grow_group(rois, used.update(j as int, true), group.push(j as usize), j + 1)
    } else {
        grow_group(rois, used, group, j + 1)
    }
}

/// The groups that start at the boxes from `i` on.
pub open spec fn groups_from(rois: Seq<BoundingBox>, used: Seq<bool>, i: nat) -> Seq<Seq<usize>>
    decreases rois.len() - i,
{
    if i >= rois.len() {
        Seq::empty()
    } else if used[i as int] {
        groups_from(rois, used, i + 1)
    } else {
        let grown = grow_group(rois, used.update(i as int, true), seq![i as usize], i + 1);
        seq![grown.0] + groups_from(rois, grown.1, i + 1)
    }
}

/// The boxes gathered into groups of neighbours. Each box that is in no
/// group yet starts one; the boxes after it join in order where their centre
/// is at most 100 pixels from the centre of a box already in the group.
/// A group holds the positions of its boxes.
pub open spec fn proximity_groups(rois: Seq<BoundingBox>) -> Seq<Seq<usize>> {
    groups_from(rois, Seq::new(rois.len(), |k: int| false), 0)
}

/// The groups as sequences of positions.
pub open spec fn group_views(groups: Seq<Vec<usize>>) -> Seq<Seq<usize>> {
    Seq::new(groups.len(), |i: int| groups[i]@)
}

fn is_near_group(results: &Vec<OCRResult>, group: &Vec<usize>, j: usize) -> (r: bool)
    requires
        j < results.len(),
        forall|k: int| 0 <= k < group.len() ==> group@[k] < results.len(),
    ensures
        r == near_group(rois_of(results@), group@, j as int),
{
    let mut k: usize = 0;
    while k < group.len()
        invariant
            k <= group.len(),
            j < results.len(),
            forall|t: int| 0 <= t < group.len() ==> group@[t] < results.len(),
            forall|t: int|
                0 <= t < k ==> !(#[trigger] rois_of(results@)[group@[t] as int]).spec_centers_within(
                    rois_of(results@)[j as int],
                    GROUP_RADIUS as int,
                ),
        decreases group.len() - k,
    {
        if results[group[k]].roi.centers_within(&results[j].roi, GROUP_RADIUS) {
            assert(rois_of(results@)[group@[k as int] as int].spec_centers_within(
                rois_of(results@)[j as int],
                GROUP_RADIUS as int,
            ));
            return true;
        }
        k += 1;
    }
    false
}

/// Gathers the text regions into groups of neighbours.
pub fn group_by_spatial_proximity(results: &Vec<OCRResult>) -> (groups: Vec<Vec<usize>>)
    ensures
        group_views(groups@) == proximity_groups(rois_of(results@)),
        forall|g: int, k: int|
            0 <= g < groups.len() && 0 <= k < groups@[g].len() ==> #[trigger] groups@[g]@[k]
                < results.len(),
{
    let n: usize = results.len();
    let ghost rois = rois_of(results@);
    let mut used: Vec<bool> = Vec::new();
    let mut t: usize = 0;
    while t < n
        invariant
            t <= n,
            used.len() == t,
            forall|k: int| 0 <= k < t ==> !used@[k],
        decreases n - t,
    {
        used.push(false);
        t += 1;
    }
    assert(used@ =~= Seq::new(rois.len(), |k: int| false));
    let mut groups: Vec<Vec<usize>> = Vec::new();
    let mut i: usize = 0;
    while i < n
        invariant
            i <= n,
            n == results.len(),
            rois == rois_of(results@),
            used.len() == n,
            group_views(groups@) + groups_from(rois, used@, i as nat) == proximity_groups(rois),
            forall|g: int, k: int|
                0 <= g < groups.len() && 0 <= k < groups@[g].len() ==> #[trigger] groups@[g]@[k]
                    < n,
        decreases n - i,
    {
        if !used[i] {
            let ghost used_before = used@;
            let mut group: Vec<usize> = Vec::new();
            group.push(i);
            used.set(i, true);
            let ghost start_used = used@;
            assert(group@ =~= seq![i]);
            let mut j: usize = i + 1;
            while j < n
                invariant
                    i < j <= n,
                    n == results.len(),
                    rois == rois_of(results@),
                    used.len() == n,
                    forall|k: int| 0 <= k < group.len() ==> group@[k] < n,
                    grow_group(rois, used@, group@, j as nat) == grow_group(
                        rois,
                        start_used,
                        seq![i],
                        (i + 1) as nat,
                    ),
                decreases n - j,
            {
                if !used[j] && is_near_group(results, &group, j) {
                    group.push(j);
                    used.set(j, true);
                }
                j += 1;
            }
            let ghost before = group_views(groups@);
            groups.push(group);
            assert(group_views(groups@) =~= before.push(group@));
            assert(before.push(group@) + groups_from(rois, used@, (i + 1) as nat) =~= before + (
            seq![group@] + groups_from(rois, used@, (i + 1) as nat)));
        }
        i += 1;
    }
    assert(group_views(groups@) + Seq::<Seq<usize>>::empty() =~= group_views(groups@));
    groups
}

/// The least left edge of the boxes of the group.
pub open spec fn group_left(rois: Seq<BoundingBox>, group: Seq<usize>) -> int
    decreases group.len(),
{
    if group.len() == 0 {
        0
    } else if group.len() == 1 {
        rois[group[0] as int].x as int
    } else {
        min_int(group_left(rois, group.drop_last()), rois[group.last() as int].x as int)
    }
}

/// The least top edge of the boxes of the group.
pub open spec fn group_top(rois: Seq<BoundingBox>, group: Seq<usize>) -> int
    decreases group.len(),
{
    if group.len() == 0 {
        0
    } else if group.len() == 1 {
        rois[group[0] as int].y as int
    } else {
        min_int(group_top(rois, group.drop_last()), rois[group.last() as int].y as int)
    }
}

/// The greatest right edge of the boxes of the group.
pub open spec fn group_right(rois: Seq<BoundingBox>, group: Seq<usize>) -> int
    decreases group.len(),
{
    if group.len() == 0 {
        0
    } else if group.len() == 1 {
        rois[group[0] as int].right()
    } else {
        max_int(group_right(rois, group.drop_last()), rois[group.last() as int].right())
    }
}

/// The greatest bottom edge of the boxes of the group.
pub open spec fn group_bottom(rois: Seq<BoundingBox>, group: Seq<usize>) -> int
    decreases group.len(),
{
    if group.len() == 0 {
        0
    } else if group.len() == 1 {
        rois[group[0] as int].bottom()
    } else {
        max_int(group_bottom(rois, group.drop_last()), rois[group.last() as int].bottom())
    }
}

/// `v` as an extent: at most the greatest 32-bit number.
pub open spec fn extent(v: int) -> u32 {
    if v > u32::MAX as int {
        u32::MAX
    } else {
        v as u32
    }
}

/// The smallest box that holds every box of the group; extents that do not
/// fit in 32 bits are cut. The empty group has the empty box at the origin.
pub open spec fn group_box(rois: Seq<BoundingBox>, group: Seq<usize>) -> BoundingBox {
    BoundingBox {
        x: group_left(rois, group) as i32,
        y: group_top(rois, group) as i32,
        width: extent(group_right(rois, group) - group_left(rois, group)),
        height: extent(group_bottom(rois, group) - group_top(rois, group)),
    }
}

/// The texts of the group, in order, with one space between two of them.
pub open spec fn joined_text(results: Seq<OCRResult>, group: Seq<usize>) -> Seq<char>
    decreases group.len(),
{
    if group.len() == 0 {
        Seq::empty()
    } else if group.len() == 1 {
        results[group[0] as int].text@
    } else {
        joined_text(results, group.drop_last()).push(' ') + results[group.last() as int].text@
    }
}

/// The smallest box that holds every region of the group.
pub fn calculate_group_bounding_box(results: &Vec<OCRResult>, group: &Vec<usize>) -> (b:
    BoundingBox)
    requires
        forall|k: int| 0 <= k < group.len() ==> group@[k] < results.len(),
    ensures
        b == group_box(rois_of(results@), group@),
{
    if group.len() == 0 {
        return BoundingBox { x: 0, y: 0, width: 0, height: 0 };
    }
    let ghost rois = rois_of(results@);
    let first = results[group[0]].roi;
    let mut left: i64 = first.x as i64;
    let mut top: i64 = first.y as i64;
    let mut right: i64 = first.x as i64 + first.width as i64;
    let mut bottom: i64 = first.y as i64 + first.height as i64;
    assert(group@.take(1) =~= seq![group@[0]]);
    let mut i: usize = 1;
    while i < group.len()
        invariant
            1 <= i <= group.len(),
            rois == rois_of(results@),
            forall|k: int| 0 <= k < group.len() ==> group@[k] < results.len(),
            left as int == group_left(rois, group@.take(i as int)),
            top as int == group_top(rois, group@.take(i as int)),
            right as int == group_right(rois, group@.take(i as int)),
            bottom as int == group_bottom(rois, group@.take(i as int)),
            -0x8000_0000 <= left <= right <= 0x1_8000_0000,
            -0x8000_0000 <= top <= bottom <= 0x1_8000_0000,
            -0x8000_0000 <= left < 0x8000_0000,
            -0x8000_0000 <= top < 0x8000_0000,
        decreases group.len() - i,
    {
        assert(group@.take(i + 1).drop_last() =~= group@.take(i as int));
        let b = results[group[i]].roi;
        let r: i64 = b.x as i64 + b.width as i64;
        let m: i64 = b.y as i64 + b.height as i64;
        if (b.x as i64) < left {
            left = b.x as i64;
        }
        if (b.y as i64) < top {
            top = b.y as i64;
        }
        if r > right {
            right = r;
        }
        if m > bottom {
            bottom = m;
        }
        i += 1;
    }
    assert(group@.take(group.len() as int) =~= group@);
    let w: i64 = right - left;
    let h: i64 = bottom - top;
    BoundingBox {
        x: left as i32,
        y: top as i32,
        width: if w > u32::MAX as i64 {
            u32::MAX
        } else {
            w as u32
        },
        height: if h > u32::MAX as i64 {
            u32::MAX
        } else {
            h as u32
        },
    }
}

/// The texts of the group, in order, with one space between two of them.
pub fn join_group_text(results: &Vec<OCRResult>, group: &Vec<usize>) -> (text: String)
    requires
        forall|k: int| 0 <= k < group.len() ==> group@[k] < results.len(),
    ensures
        text@ == joined_text(results@, group@),
{
    let mut out: Vec<char> = Vec::new();
    if group.len() == 0 {
        return string_of(&out);
    }
    push_str_chars(&mut out, results[group[0]].text.as_str());
    assert(group@.take(1) =~= seq![group@[0]]);
    assert(out@ =~= results@[group@[0] as int].text@);
    let mut i: usize = 1;
    while i < group.len()
        invariant
            1 <= i <= group.len(),
            forall|k: int| 0 <= k < group.len() ==> group@[k] < results.len(),
            out@ == joined_text(results@, group@.take(i as int)),
        decreases group.len() - i,
    {
        assert(group@.take(i + 1).drop_last() =~= group@.take(i as int));
        out.push(' ');
        push_str_chars(&mut out, results[group[i]].text.as_str());
        i += 1;
    }
    assert(group@.take(group.len() as int) =~= group@);
    string_of(&out)
}

/// The event, without identifier, for a group of neighbouring regions:
/// none unless the group has at least two regions and its box scores at
/// least 0.6 as a dialog. The words of the joined text, given in lower case
/// as `lowered`, decide the kind and the severity.
pub open spec fn group_event(
    cfg: ErrorModalDetectionConfig,
    results: Seq<OCRResult>,
    group: Seq<usize>,
    lowered: Seq<char>,
    frame_id: Seq<char>,
    timestamp: i64,
    sw: u32,
    sh: u32,
) -> Option<ErrorModalEventView> {
    let bbox = group_box(rois_of(results), group);
    let layout = spec_analyze_layout(cfg, bbox, sw, sh);
    if group.len() < 2 || !layout.is_dialog_layout || layout.layout_confidence < 600_000 {
        None
    } else {
        Some(
            ErrorModalEventView {
                id: Seq::empty(),
                timestamp,
                event_type: dialog_kind_of(lowered),
                severity: content_severity(lowered),
                title: title_of(joined_text(results, group)),
                message: joined_text(results, group),
                confidence: layout.layout_confidence,
                frame_id,
                roi: bbox,
                metadata: seq![
                    ("group_size"@, spec_decimal(group.len())),
                    ("detection_method"@, "layout_analysis"@),
                    ("screen_width"@, spec_decimal(sw as nat)),
                    ("screen_height"@, spec_decimal(sh as nat)),
                ],
                pattern_matches: Seq::empty(),
                layout_analysis: Some(layout),
            },
        )
    }
}

/// The event for each text region, by the pattern catalogue.
pub open spec fn text_event_of(
    cfg: ErrorModalDetectionConfig,
    frame_id: Seq<char>,
    timestamp: i64,
    sw: u32,
    sh: u32,
) -> spec_fn(OCRResult) -> Option<ErrorModalEventView> {
    |r: OCRResult|
        text_event(
            cfg,
            catalogue_matches(r.text@),
            r,
            lowercase_of(r.text@),
            frame_id,
            timestamp,
            sw,
            sh,
        )
}

/// The event for each group of regions, by its layout.
pub open spec fn group_event_of(
    cfg: ErrorModalDetectionConfig,
    results: Seq<OCRResult>,
    frame_id: Seq<char>,
    timestamp: i64,
    sw: u32,
    sh: u32,
) -> spec_fn(Seq<usize>) -> Option<ErrorModalEventView> {
    |g: Seq<usize>|
        group_event(
            cfg,
            results,
            g,
            lowercase_of(joined_text(results, g)),
            frame_id,
            timestamp,
            sw,
            sh,
        )
}

/// The events that the layout of the regions gives, without identifiers.
pub open spec fn layout_events(
    cfg: ErrorModalDetectionConfig,
    results: Seq<OCRResult>,
    frame_id: Seq<char>,
    timestamp: i64,
    sw: u32,
    sh: u32,
) -> Seq<ErrorModalEventView> {
    collect(
        proximity_groups(rois_of(results)),
        group_event_of(cfg, results, frame_id, timestamp, sw, sh),
    )
}

/// The events of a frame, without identifiers: for the regions whose OCR
/// confidence reaches the configured minimum, first the events of the single
/// regions, in order, then, where layout detection is on, those of the groups.
pub open spec fn frame_events(
    cfg: ErrorModalDetectionConfig,
    results: Seq<OCRResult>,
    frame_id: Seq<char>,
    timestamp: i64,
    sw: u32,
    sh: u32,
) -> Seq<ErrorModalEventView> {
    let high = confident(results, cfg.min_ocr_confidence);
    collect(high, text_event_of(cfg, frame_id, timestamp, sw, sh)) + if cfg.enable_layout_detection {
        layout_events(cfg, high, frame_id, timestamp, sw, sh)
    } else {
        Seq::empty()
    }
}

impl ErrorModalDetector {
    /// The kind of dialog that the words of a text indicate.
    pub fn classify_dialog_by_content(&self, text: &str) -> (kind: ErrorModalType)
        ensures
            kind == dialog_kind_of(lowercase_of(text@)),
    {
        let lowered = to_lowercase(text);
        classify_lowered_dialog(lowered.as_str())
    }

    /// The severity that the words of a text call for.
    pub fn determine_severity_by_content(&self, text: &str) -> (level: SeverityLevel)
        ensures
            level == content_severity(lowercase_of(text@)),
    {
        let lowered = to_lowercase(text);
        severity_of_lowered(lowered.as_str())
    }

    /// The event for a group of neighbouring regions under the identifier
    /// `id`; `lowered` is the joined text of the group in lower case.
    pub fn assess_group(
        &self,
        results: &Vec<OCRResult>,
        group: &Vec<usize>,
        lowered: &str,
        frame_id: &str,
        timestamp: i64,
        screen_width: u32,
        screen_height: u32,
        id: String,
    ) -> (r: Option<ErrorModalEvent>)
        requires
            forall|k: int| 0 <= k < group.len() ==> group@[k] < results.len(),
        ensures
            match group_event(
                self.config,
                results@,
                group@,
                lowered@,
                frame_id@,
                timestamp,
                screen_width,
                screen_height,
            ) {
                Some(e) => r is Some && r->Some_0@ == e.with_id(id@),
                None => r is None,
            },
    {
        if group.len() < 2 {
            return None;
        }
        let bbox = calculate_group_bounding_box(results, group);
        let layout = analyze_layout(&self.config, &bbox, screen_width, screen_height);
        if !layout.is_dialog_layout || layout.layout_confidence < 600_000 {
            return None;
        }
        let text = join_group_text(results, group);
        let mut metadata = Metadata::new();
        metadata.add("group_size", decimal_string(group.len() as u64));
        metadata.add("detection_method", String::from_str("layout_analysis"));
        metadata.add("screen_width", decimal_string(screen_width as u64));
        metadata.add("screen_height", decimal_string(screen_height as u64));
        let event = ErrorModalEvent {
            id,
            timestamp,
            event_type: classify_lowered_dialog(lowered),
            severity: severity_of_lowered(lowered),
            title: extract_title(text.as_str()),
            message: text,
            confidence: layout.layout_confidence,
            frame_id: String::from_str(frame_id),
            roi: bbox,
            metadata,
            pattern_matches: Vec::new(),
            layout_analysis: Some(layout),
        };
        proof {
            let want = group_event(
                self.config,
                results@,
                group@,
                lowered@,
                frame_id@,
                timestamp,
                screen_width,
                screen_height,
            )->Some_0;
            assert(event@.metadata =~= want.metadata);
            assert(event@.pattern_matches =~= want.pattern_matches);
            assert(event@ == want.with_id(id@));
        }
        Some(event)
    }

    /// The dialogs that the arrangement of the text regions indicates.
    pub fn detect_dialog_layouts(
        &self,
        frame_id: &str,
        ocr_results: &Vec<OCRResult>,
        timestamp: i64,
        screen_width: u32,
        screen_height: u32,
    ) -> (events: Vec<ErrorModalEvent>)
        ensures
            sans_ids(events@) == layout_events(
                self.config,
                ocr_results@,
                frame_id@,
                timestamp,
                screen_width,
                screen_height,
            ),
    {
        let groups = group_by_spatial_proximity(ocr_results);
        let ghost f = group_event_of(
            self.config,
            ocr_results@,
            frame_id@,
            timestamp,
            screen_width,
            screen_height,
        );
        let ghost gs = proximity_groups(rois_of(ocr_results@));
        let mut events: Vec<ErrorModalEvent> = Vec::new();
        let mut i: usize = 0;
        assert(sans_ids(events@) =~= collect(gs.take(0), f));
        while i < groups.len()
            invariant
                i <= groups.len(),
                gs == group_views(groups@),
                f == group_event_of(
                    self.config,
                    ocr_results@,
                    frame_id@,
                    timestamp,
                    screen_width,
                    screen_height,
                ),
                forall|g: int, k: int|
                    0 <= g < groups.len() && 0 <= k < groups@[g].len() ==> #[trigger] groups@[g]@[k]
                        < ocr_results.len(),
                sans_ids(events@) == collect(gs.take(i as int), f),
            decreases groups.len() - i,
        {
            proof {
                lemma_collect_step(gs, f, i as int);
            }
            let group = &groups[i];
            assert(forall|k: int| 0 <= k < group.len() ==> group@[k] == groups@[i as int]@[k]);
            let text = join_group_text(ocr_results, group);
            let lowered = to_lowercase(text.as_str());
            let ghost before = sans_ids(events@);
            match self.assess_group(
                ocr_results,
                group,
                lowered.as_str(),
                frame_id,
                timestamp,
                screen_width,
                screen_height,
                fresh_id(),
            ) {
                Some(event) => {
                    events.push(event);
                    assert(sans_ids(events@) =~= before.push(event@.sans_id()));
                },
                None => {},
            }
            i += 1;
        }
        assert(gs.take(groups.len() as int) =~= gs);
        events
    }

    /// The events as they are reported: each one stands for itself.
    pub fn group_related_elements(&self, events: Vec<ErrorModalEvent>) -> (r: Result<
        Vec<ErrorModalEvent>,
    >)
        ensures
            r == Ok::<Vec<ErrorModalEvent>, IndexerError>(events),
    {
        Ok(events)
    }

    /// The errors and dialogs that the text regions of a frame show.
    pub fn detect_errors_and_modals(
        &self,
        frame_id: &str,
        ocr_results: &Vec<OCRResult>,
        timestamp: i64,
        screen_width: u32,
        screen_height: u32,
    ) -> (r: Result<Vec<ErrorModalEvent>>)
        ensures
            r is Ok,
            sans_ids(r->Ok_0@) == frame_events(
                self.config,
                ocr_results@,
                frame_id@,
                timestamp,
                screen_width,
                screen_height,
            ),
    {
        let high = filter_confident(ocr_results, self.config.min_ocr_confidence);
        let ghost f = text_event_of(
            self.config,
            frame_id@,
            timestamp,
            screen_width,
            screen_height,
        );
        let mut events: Vec<ErrorModalEvent> = Vec::new();
        let mut i: usize = 0;
        assert(sans_ids(events@) =~= collect(high@.take(0), f));
        while i < high.len()
            invariant
                i <= high.len(),
                f == text_event_of(self.config, frame_id@, timestamp, screen_width, screen_height),
                sans_ids(events@) == collect(high@.take(i as int), f),
            decreases high.len() - i,
        {
            proof {
                lemma_collect_step(high@, f, i as int);
            }
            let ghost before = sans_ids(events@);
            match self.analyze_text_for_errors_modals(
                frame_id,
                &high[i],
                timestamp,
                screen_width,
                screen_height,
            ) {
                Some(event) => {
                    events.push(event);
                    assert(sans_ids(events@) =~= before.push(event@.sans_id()));
                },
                None => {},
            }
            i += 1;
        }
        assert(high@.take(high.len() as int) =~= high@);
        if self.config.enable_layout_detection {
            let ghost before = sans_ids(events@);
            let mut more = self.detect_dialog_layouts(
                frame_id,
                &high,
                timestamp,
                screen_width,
                screen_height,
            );
            let ghost added = sans_ids(more@);
            events.append(&mut more);
            assert(sans_ids(events@) =~= before + added);
        } else {
            assert(sans_ids(events@) + Seq::<ErrorModalEventView>::empty() =~= sans_ids(events@));
        }
        self.group_related_elements(events)
    }
}

/// Whether the confidence of an event is a score between 0 and 1.
pub open spec fn confidence_in_range() -> spec_fn(ErrorModalEventView) -> bool {
    |e: ErrorModalEventView| e.confidence <= UNIT
}

/// The confidence of every error and dialog of a frame is a score between 0 and 1.
pub proof fn lemma_frame_events_confidence(
    cfg: ErrorModalDetectionConfig,
    results: Seq<OCRResult>,
    frame_id: Seq<char>,
    timestamp: i64,
    sw: u32,
    sh: u32,
)
    ensures
        forall|k: int|
            0 <= k < frame_events(cfg, results, frame_id, timestamp, sw, sh).len() ==> (
            #[trigger] frame_events(cfg, results, frame_id, timestamp, sw, sh)[k]).confidence <= UNIT,
{
    let high = confident(results, cfg.min_ocr_confidence);
    let ok = confidence_in_range();
    let f = text_event_of(cfg, frame_id, timestamp, sw, sh);
    lemma_collect_all(high, f, ok);
    let single = collect(high, f);
    let all = frame_events(cfg, results, frame_id, timestamp, sw, sh);
    if cfg.enable_layout_detection {
        let groups = proximity_groups(rois_of(high));
        let g = group_event_of(cfg, high, frame_id, timestamp, sw, sh);
        lemma_collect_all(groups, g, ok);
        let grouped = collect(groups, g);
        assert forall|k: int| 0 <= k < all.len() implies (#[trigger] all[k]).confidence <= UNIT by {
            if k < single.len() {
                assert(all[k] == single[k]);
                assert(ok(single[k]));
            } else {
                assert(all[k] == grouped[k - single.len()]);
                assert(ok(grouped[k - single.len()]));
            }
        }
    } else {
        assert forall|k: int| 0 <= k < all.len() implies (#[trigger] all[k]).confidence <= UNIT by {
            assert(all[k] == single[k]);
            assert(ok(single[k]));
        }
    }
}

} // verus!
