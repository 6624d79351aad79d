//! The state of windows, tabs and focus as the probes report it.

use vstd::prelude::*;
use crate::clock::{elapsed_ms, milliseconds_between};
use crate::error::Result;
use crate::events::{sans_ids, DetectedEvent, DetectedEventView, EventType};
use crate::ids::fresh_id;
use crate::keyvalue::{optional_decimal, with_optional, Metadata};
use crate::text::{
    char_vec,
    option_view,
    push_signed_decimal,
    push_str_chars,
    signed_decimal_string,
    single,
    spec_signed_decimal,
    str_eq,
    string_of,
};
use crate::units::{lemma_scale_bounds, scale, scale_by, UNIT};

verus! {

/// The window in front.
#[derive(Clone, Debug)]
pub struct WindowState {
    pub app_name: String,
    pub window_title: String,
    pub window_id: Option<i32>,
    pub bundle_id: Option<String>,
    pub process_id: i32,
    /// In nanoseconds since the epoch.
    pub timestamp: i64,
}

/// The tab in front, for browsers and other applications with tabs.
#[derive(Clone, Debug)]
pub struct TabState {
    pub app_name: String,
    pub tab_title: String,
    pub url: Option<String>,
    pub tab_index: Option<i32>,
    /// In nanoseconds since the epoch.
    pub timestamp: i64,
}

/// A change of the application that has the focus.
#[derive(Clone, Debug)]
pub struct FocusEvent {
    pub from_app: Option<String>,
    pub to_app: String,
    pub from_bundle_id: Option<String>,
    pub to_bundle_id: String,
    /// In nanoseconds since the epoch.
    pub timestamp: i64,
    /// In millionths.
    pub confidence: u32,
}

/// What the navigation detector looks for.
#[derive(Clone, Copy, Debug, PartialEq, Eq, Structural)]
pub struct NavigationDetectionConfig {
    pub enable_window_detection: bool,
    pub enable_tab_detection: bool,
    pub enable_focus_detection: bool,
    /// The least time between two reported changes, in milliseconds.
    pub min_detection_interval_ms: u64,
    /// The confidence of the reported changes, in millionths.
    pub min_confidence: u32,
}

impl NavigationDetectionConfig {
    pub open spec fn spec_default() -> NavigationDetectionConfig {
        NavigationDetectionConfig {
            enable_window_detection: true,
            enable_tab_detection: true,
            enable_focus_detection: true,
            min_detection_interval_ms: 100,
            min_confidence: 800_000,
        }
    }
}

impl Default for NavigationDetectionConfig {
    fn default() -> (c: Self)
        ensures
            c == NavigationDetectionConfig::spec_default(),
    {
        NavigationDetectionConfig {
            enable_window_detection: true,
            enable_tab_detection: true,
            enable_focus_detection: true,
            min_detection_interval_ms: 100,
            min_confidence: 800_000,
        }
    }
}

/// Whether two readings of the window in front say the same in every part.
pub open spec fn same_window(a: WindowState, b: WindowState) -> bool {
    &&& a.app_name@ == b.app_name@
    &&& a.window_title@ == b.window_title@
    &&& a.window_id == b.window_id
    &&& option_view(a.bundle_id) == option_view(b.bundle_id)
    &&& a.process_id == b.process_id
    &&& a.timestamp == b.timestamp
}

/// Whether two readings of the tab in front say the same in every part.
pub open spec fn same_tab(a: TabState, b: TabState) -> bool {
    &&& a.app_name@ == b.app_name@
    &&& a.tab_title@ == b.tab_title@
    &&& option_view(a.url) == option_view(b.url)
    &&& a.tab_index == b.tab_index
    &&& a.timestamp == b.timestamp
}

fn same_option_text(a: &Option<String>, b: &Option<String>) -> (r: bool)
    ensures
        r == (option_view(*a) == option_view(*b)),
{
    match (a, b) {
        (Some(x), Some(y)) => str_eq(x.as_str(), y.as_str()),
        (None, None) => true,
        _ => false,
    }
}

fn same_option_number(a: Option<i32>, b: Option<i32>) -> (r: bool)
    ensures
        r == (a == b),
{
    match (a, b) {
        (Some(x), Some(y)) => x == y,
        (None, None) => true,
        _ => false,
    }
}

/// Whether two readings of the window in front say the same in every part.
pub fn windows_equal(a: &WindowState, b: &WindowState) -> (r: bool)
    ensures
        r == same_window(*a, *b),
{
    str_eq(a.app_name.as_str(), b.app_name.as_str()) && str_eq(
        a.window_title.as_str(),
        b.window_title.as_str(),
    ) && same_option_number(a.window_id, b.window_id) && same_option_text(&a.bundle_id, &b.bundle_id)
        && a.process_id == b.process_id && a.timestamp == b.timestamp
}

/// Whether two readings of the tab in front say the same in every part.
pub fn tabs_equal(a: &TabState, b: &TabState) -> (r: bool)
    ensures
        r == same_tab(*a, *b),
{
    str_eq(a.app_name.as_str(), b.app_name.as_str()) && str_eq(
        a.tab_title.as_str(),
        b.tab_title.as_str(),
    ) && same_option_text(&a.url, &b.url) && same_option_number(a.tab_index, b.tab_index)
        && a.timestamp == b.timestamp
}

/// The text of an optional text, empty where there is none.
pub open spec fn text_or_empty(s: Option<String>) -> Seq<char> {
    match s {
        Some(t) => t@,
        None => Seq::empty(),
    }
}

/// How a window differs from the one before: another application, another
/// window of the same application, or the same window in front again.
pub open spec fn window_change_kind(current: WindowState, previous: WindowState) -> Seq<char> {
    if current.app_name@ != previous.app_name@ {
        "application_switch"@
    } else if current.window_title@ != previous.window_title@ {
        "window_change"@
    } else {
        "window_focus_change"@
    }
}

/// The notes of a change from the window `previous` to the window
/// `current`: what changed, both windows, and the number of the current
/// window where it has one.
pub open spec fn window_notes(current: WindowState, previous: WindowState) -> Seq<(Seq<char>, Seq<char>)> {
    with_optional(
        seq![
            ("change_type"@, window_change_kind(current, previous)),
            ("current_app"@, current.app_name@),
            ("current_window"@, current.window_title@),
            ("current_bundle_id"@, text_or_empty(current.bundle_id)),
            ("current_process_id"@, spec_signed_decimal(current.process_id as int)),
            ("previous_app"@, previous.app_name@),
            ("previous_window"@, previous.window_title@),
            ("previous_bundle_id"@, text_or_empty(previous.bundle_id)),
            ("previous_process_id"@, spec_signed_decimal(previous.process_id as int)),
        ],
        "window_id"@,
        optional_decimal(current.window_id),
    )
}

/// The event, without identifier, of a change from the window `previous`
/// to the window `current`.
pub open spec fn window_change_event(
    cfg: NavigationDetectionConfig,
    current: WindowState,
    previous: WindowState,
    frame_id: Seq<char>,
    timestamp: i64,
) -> DetectedEventView {
    DetectedEventView {
        id: Seq::empty(),
        timestamp,
        event_type: EventType::Navigation,
        target: "window_"@ + current.app_name@ + seq!['_'] + spec_signed_decimal(
            current.process_id as int,
        ),
        value_from: Some(previous.app_name@ + seq![':'] + previous.window_title@),
        value_to: Some(current.app_name@ + seq![':'] + current.window_title@),
        confidence: cfg.min_confidence,
        evidence_frames: seq![frame_id],
        metadata: window_notes(current, previous),
    }
}

/// The number of a tab, 0 where it is not known.
pub open spec fn tab_number(index: Option<i32>) -> int {
    match index {
        Some(i) => i as int,
        None => 0,
    }
}

/// The notes of a change from the tab `previous` to the tab `current`: the
/// titles, then the addresses and the number of the current tab as far as
/// they are known.
pub open spec fn tab_notes(current: TabState, previous: TabState) -> Seq<(Seq<char>, Seq<char>)> {
    with_optional(
        with_optional(
            with_optional(
                seq![
                    ("change_type"@, "tab_change"@),
                    ("app_name"@, current.app_name@),
                    ("current_tab"@, current.tab_title@),
                    ("previous_tab"@, previous.tab_title@),
                ],
                "current_url"@,
                option_view(current.url),
            ),
            "previous_url"@,
            option_view(previous.url),
        ),
        "tab_index"@,
        optional_decimal(current.tab_index),
    )
}

/// The event, without identifier, of a change from the tab `previous` to
/// the tab `current`. Its confidence is 0.9 of the configured confidence.
pub open spec fn tab_change_event(
    cfg: NavigationDetectionConfig,
    current: TabState,
    previous: TabState,
    frame_id: Seq<char>,
    timestamp: i64,
) -> DetectedEventView {
    DetectedEventView {
        id: Seq::empty(),
        timestamp,
        event_type: EventType::Navigation,
        target: "tab_"@ + current.app_name@ + seq!['_'] + spec_signed_decimal(
            tab_number(current.tab_index),
        ),
        value_from: Some(previous.tab_title@),
        value_to: Some(current.tab_title@),
        confidence: scale(cfg.min_confidence as int, 900_000) as u32,
        evidence_frames: seq![frame_id],
        metadata: tab_notes(current, previous),
    }
}

/// The notes of a change of focus: where it went and, as far as it is
/// known, where it came from.
pub open spec fn focus_notes(focus: FocusEvent) -> Seq<(Seq<char>, Seq<char>)> {
    with_optional(
        with_optional(
            seq![
                ("change_type"@, "focus_change"@),
                ("to_app"@, focus.to_app@),
                ("to_bundle_id"@, focus.to_bundle_id@),
            ],
            "from_app"@,
            option_view(focus.from_app),
        ),
        "from_bundle_id"@,
        option_view(focus.from_bundle_id),
    )
}

/// The event, without identifier, of a change of focus.
pub open spec fn focus_change_event(focus: FocusEvent, frame_id: Seq<char>, timestamp: i64) -> DetectedEventView {
    DetectedEventView {
        id: Seq::empty(),
        timestamp,
        event_type: EventType::Navigation,
        target: "focus_"@ + focus.to_bundle_id@,
        value_from: option_view(focus.from_app),
        value_to: Some(focus.to_app@),
        confidence: focus.confidence,
        evidence_frames: seq![frame_id],
        metadata: focus_notes(focus),
    }
}

/// Whether enough time has passed since `earlier` for a change at `now` to
/// be reported.
pub open spec fn interval_passed(cfg: NavigationDetectionConfig, earlier: i64, now: i64) -> bool {
    elapsed_ms(earlier, now) >= cfg.min_detection_interval_ms
}

/// Whether a change of window is reported: there is a reading before, it
/// differs from the current one, and enough time has passed since it.
pub open spec fn window_changed(
    cfg: NavigationDetectionConfig,
    previous: Option<WindowState>,
    current: WindowState,
    timestamp: i64,
) -> bool {
    match previous {
        Some(p) => !same_window(current, p) && interval_passed(cfg, p.timestamp, timestamp),
        None => false,
    }
}

/// Whether a change of tab is reported.
pub open spec fn tab_changed(
    cfg: NavigationDetectionConfig,
    previous: Option<TabState>,
    current: TabState,
    timestamp: i64,
) -> bool {
    match previous {
        Some(p) => !same_tab(current, p) && interval_passed(cfg, p.timestamp, timestamp),
        None => false,
    }
}

/// Whether a change of focus is reported: no focus is remembered, or the
/// last one went to another application and enough time has passed since.
pub open spec fn focus_changed(
    cfg: NavigationDetectionConfig,
    history: Seq<FocusEvent>,
    current: FocusEvent,
    timestamp: i64,
) -> bool {
    if history.len() == 0 {
        true
    } else {
        let last = history.last();
        (last.to_app@ != current.to_app@ || last.to_bundle_id@ != current.to_bundle_id@)
            && interval_passed(cfg, last.timestamp, timestamp)
    }
}

/// The remembered changes of focus after one more: where more than
/// `max` are held, the oldest leaves.
pub open spec fn focus_history_after(history: Seq<FocusEvent>, focus: FocusEvent, max: int) -> Seq<
    FocusEvent,
> {
    let grown = history.push(focus);
    if grown.len() > max {
        grown.drop_first()
    } else {
        grown
    }
}

fn interval_has_passed(cfg: &NavigationDetectionConfig, earlier: i64, now: i64) -> (r: bool)
    ensures
        r == interval_passed(*cfg, earlier, now),
{
    let ms = milliseconds_between(earlier, now);
    ms >= 0 && ms as u64 >= cfg.min_detection_interval_ms
}

fn text_of(s: &Option<String>) -> (r: String)
    ensures
        r@ == text_or_empty(*s),
{
    match s {
        Some(t) => t.clone(),
        None => String::new(),
    }
}

fn joined(a: &str, sep: char, b: &str) -> (r: String)
    ensures
        r@ == a@ + seq![sep] + b@,
{
    let mut out = char_vec(a);
    out.push(sep);
    push_str_chars(&mut out, b);
    string_of(&out)
}

/// Finds the changes of window, tab and focus in successive readings.
#[derive(Debug)]
pub struct NavigationDetector {
    pub config: NavigationDetectionConfig,
    /// The window of the last reading.
    pub previous_window_state: Option<WindowState>,
    /// The tab of the last reading.
    pub previous_tab_state: Option<TabState>,
    /// The changes of focus that were reported, oldest first.
    pub focus_history: Vec<FocusEvent>,
    /// The most changes of focus that are remembered.
    pub max_history_size: usize,
}

impl NavigationDetector {
    /// A detector with the default configuration.
    pub fn new() -> (d: NavigationDetector)
        ensures
            d.config == NavigationDetectionConfig::spec_default(),
            d.previous_window_state is None,
            d.previous_tab_state is None,
            d.focus_history@.len() == 0,
            d.max_history_size == 100,
    {
        NavigationDetector::with_config(NavigationDetectionConfig::default())
    }

    /// A detector with the given configuration that has seen nothing yet.
    pub fn with_config(config: NavigationDetectionConfig) -> (d: NavigationDetector)
        ensures
            d.config == config,
            d.previous_window_state is None,
            d.previous_tab_state is None,
            d.focus_history@.len() == 0,
            d.max_history_size == 100,
    {
        NavigationDetector {
            config,
            previous_window_state: None,
            previous_tab_state: None,
            focus_history: Vec::new(),
            max_history_size: 100,
        }
    }

    /// The notes of a change of window.
    pub fn create_window_metadata(current: &WindowState, previous: &WindowState) -> (m: Metadata)
        ensures
            m@ == window_notes(*current, *previous),
    {
        let kind = if !str_eq(current.app_name.as_str(), previous.app_name.as_str()) {
            "application_switch"
        } else if !str_eq(current.window_title.as_str(), previous.window_title.as_str()) {
            "window_change"
        } else {
            "window_focus_change"
        };
        let mut m = Metadata::new();
        m.add("change_type", String::from_str(kind));
        m.add("current_app", current.app_name.clone());
        m.add("current_window", current.window_title.clone());
        m.add("current_bundle_id", text_of(&current.bundle_id));
        m.add("current_process_id", signed_decimal_string(current.process_id as i64));
        m.add("previous_app", previous.app_name.clone());
        m.add("previous_window", previous.window_title.clone());
        m.add("previous_bundle_id", text_of(&previous.bundle_id));
        m.add("previous_process_id", signed_decimal_string(previous.process_id as i64));
        assert(m@ =~= seq![
            ("change_type"@, window_change_kind(*current, *previous)),
            ("current_app"@, current.app_name@),
            ("current_window"@, current.window_title@),
            ("current_bundle_id"@, text_or_empty(current.bundle_id)),
            ("current_process_id"@, spec_signed_decimal(current.process_id as int)),
            ("previous_app"@, previous.app_name@),
            ("previous_window"@, previous.window_title@),
            ("previous_bundle_id"@, text_or_empty(previous.bundle_id)),
            ("previous_process_id"@, spec_signed_decimal(previous.process_id as int)),
        ]);
        m.add_optional_number("window_id", current.window_id);
        m
    }

    /// The notes of a change of tab.
    pub fn create_tab_metadata(current: &TabState, previous: &TabState) -> (m: Metadata)
        ensures
            m@ == tab_notes(*current, *previous),
    {
        let mut m = Metadata::new();
        m.add("change_type", String::from_str("tab_change"));
        m.add("app_name", current.app_name.clone());
        m.add("current_tab", current.tab_title.clone());
        m.add("previous_tab", previous.tab_title.clone());
        assert(m@ =~= seq![
            ("change_type"@, "tab_change"@),
            ("app_name"@, current.app_name@),
            ("current_tab"@, current.tab_title@),
            ("previous_tab"@, previous.tab_title@),
        ]);
        m.add_optional("current_url", &current.url);
        m.add_optional("previous_url", &previous.url);
        m.add_optional_number("tab_index", current.tab_index);
        m
    }

    /// The notes of a change of focus.
    pub fn create_focus_metadata(focus: &FocusEvent) -> (m: Metadata)
        ensures
            m@ == focus_notes(*focus),
    {
        let mut m = Metadata::new();
        m.add("change_type", String::from_str("focus_change"));
        m.add("to_app", focus.to_app.clone());
        m.add("to_bundle_id", focus.to_bundle_id.clone());
        assert(m@ =~= seq![
            ("change_type"@, "focus_change"@),
            ("to_app"@, focus.to_app@),
            ("to_bundle_id"@, focus.to_bundle_id@),
        ]);
        m.add_optional("from_app", &focus.from_app);
        m.add_optional("from_bundle_id", &focus.from_bundle_id);
        m
    }

    /// Takes a reading of the window in front and reports the change from
    /// the reading before, if there is one to report. The reading becomes
    /// the reading before in any case.
    pub fn detect_window_changes(&mut self, current: WindowState, frame_id: &str, timestamp: i64) -> (r:
        Result<Vec<DetectedEvent>>)
        ensures
            r is Ok,
            sans_ids(r->Ok_0@) == (if window_changed(
                old(self).config,
                old(self).previous_window_state,
                current,
                timestamp,
            ) {
                seq![
                    window_change_event(
                        old(self).config,
                        current,
                        old(self).previous_window_state->Some_0,
                        frame_id@,
                        timestamp,
                    ),
                ]
            } else {
                Seq::empty()
            }),
            final(self).previous_window_state == Some(current),
            final(self).config == old(self).config,
            final(self).previous_tab_state == old(self).previous_tab_state,
            final(self).focus_history == old(self).focus_history,
            final(self).max_history_size == old(self).max_history_size,
    {
        let mut events: Vec<DetectedEvent> = Vec::new();
        match &self.previous_window_state {
            Some(previous) => {
                if !windows_equal(&current, previous) && interval_has_passed(
                    &self.config,
                    previous.timestamp,
                    timestamp,
                ) {
                    let mut target = char_vec("window_");
                    push_str_chars(&mut target, current.app_name.as_str());
                    target.push('_');
                    push_signed_decimal(&mut target, current.process_id as i64);
                    let event = DetectedEvent {
                        id: fresh_id(),
                        timestamp,
                        event_type: EventType::Navigation,
                        target: string_of(&target),
                        value_from: Some(
                            joined(previous.app_name.as_str(), ':', previous.window_title.as_str()),
                        ),
                        value_to: Some(
                            joined(current.app_name.as_str(), ':', current.window_title.as_str()),
                        ),
                        confidence: self.config.min_confidence,
                        evidence_frames: single(frame_id),
                        metadata: NavigationDetector::create_window_metadata(&current, previous),
                    };
                    let ghost want = window_change_event(
                        self.config,
                        current,
                        *previous,
                        frame_id@,
                        timestamp,
                    );
                    assert(event@.target =~= want.target);
                    assert(event@.sans_id() == want);
                    events.push(event);
                    assert(sans_ids(events@) =~= seq![want]);
                }
            },
            None => {},
        }
        if events.len() == 0 {
            assert(sans_ids(events@) =~= Seq::<DetectedEventView>::empty());
        }
        self.previous_window_state = Some(current);
        Ok(events)
    }

    /// Takes a reading of the tab in front, if there is a tab, and reports
    /// the change from the reading before, if there is one to report.
    pub fn detect_tab_changes(&mut self, current: Option<TabState>, frame_id: &str, timestamp: i64) -> (r:
        Result<Vec<DetectedEvent>>)
        ensures
            r is Ok,
            sans_ids(r->Ok_0@) == (match current {
                Some(tab) => if tab_changed(
                    old(self).config,
                    old(self).previous_tab_state,
                    tab,
                    timestamp,
                ) {
                    seq![
                        tab_change_event(
                            old(self).config,
                            tab,
                            old(self).previous_tab_state->Some_0,
                            frame_id@,
                            timestamp,
                        ),
                    ]
                } else {
                    Seq::empty()
                },
                None => Seq::empty(),
            }),
            final(self).previous_tab_state == (match current {
                Some(tab) => Some(tab),
                None => old(self).previous_tab_state,
            }),
            final(self).config == old(self).config,
            final(self).previous_window_state == old(self).previous_window_state,
            final(self).focus_history == old(self).focus_history,
            final(self).max_history_size == old(self).max_history_size,
    {
        let mut events: Vec<DetectedEvent> = Vec::new();
        match current {
            Some(tab) => {
                match &self.previous_tab_state {
                    Some(previous) => {
                        if !tabs_equal(&tab, previous) && interval_has_passed(
                            &self.config,
                            previous.timestamp,
                            timestamp,
                        ) {
                            let mut target = char_vec("tab_");
                            push_str_chars(&mut target, tab.app_name.as_str());
                            target.push('_');
                            let number: i64 = match tab.tab_index {
                                Some(i) => i as i64,
                                None => 0,
                            };
                            push_signed_decimal(&mut target, number);
                            let event = DetectedEvent {
                                id: fresh_id(),
                                timestamp,
                                event_type: EventType::Navigation,
                                target: string_of(&target),
                                value_from: Some(previous.tab_title.clone()),
                                value_to: Some(tab.tab_title.clone()),
                                confidence: scale_by(self.config.min_confidence, 900_000),
                                evidence_frames: single(frame_id),
                                metadata: NavigationDetector::create_tab_metadata(&tab, previous),
                            };
                            let ghost want = tab_change_event(
                                self.config,
                                tab,
                                *previous,
                                frame_id@,
                                timestamp,
                            );
                            assert(event@.target =~= want.target);
                            assert(event@.sans_id() == want);
                            events.push(event);
                            assert(sans_ids(events@) =~= seq![want]);
                        }
                    },
                    None => {},
                }
                if events.len() == 0 {
                    assert(sans_ids(events@) =~= Seq::<DetectedEventView>::empty());
                }
                self.previous_tab_state = Some(tab);
            },
            None => {
                assert(sans_ids(events@) =~= Seq::<DetectedEventView>::empty());
            },
        }
        Ok(events)
    }

    /// Takes a reading of the focus and reports it where it is a change.
    /// A reported change is remembered.
    pub fn detect_focus_changes(&mut self, current: FocusEvent, frame_id: &str, timestamp: i64) -> (r:
        Result<Vec<DetectedEvent>>)
        ensures
            r is Ok,
            sans_ids(r->Ok_0@) == (if focus_changed(
                old(self).config,
                old(self).focus_history@,
                current,
                timestamp,
            ) {
                seq![focus_change_event(current, frame_id@, timestamp)]
            } else {
                Seq::empty()
            }),
            final(self).focus_history@ == (if focus_changed(
                old(self).config,
                old(self).focus_history@,
                current,
                timestamp,
            ) {
                focus_history_after(old(self).focus_history@, current, old(self).max_history_size as int)
            } else {
                old(self).focus_history@
            }),
            final(self).config == old(self).config,
            final(self).previous_window_state == old(self).previous_window_state,
            final(self).previous_tab_state == old(self).previous_tab_state,
            final(self).max_history_size == old(self).max_history_size,
    {
        let mut events: Vec<DetectedEvent> = Vec::new();
        let n = self.focus_history.len();
        let report: bool = if n == 0 {
            true
        } else {
            let last = &self.focus_history[n - 1];
            (!str_eq(last.to_app.as_str(), current.to_app.as_str()) || !str_eq(
                last.to_bundle_id.as_str(),
                current.to_bundle_id.as_str(),
            )) && interval_has_passed(&self.config, last.timestamp, timestamp)
        };
        if report {
            let mut target = char_vec("focus_");
            push_str_chars(&mut target, current.to_bundle_id.as_str());
            let from = match &current.from_app {
                Some(a) => Some(a.clone()),
                None => None,
            };
            let event = DetectedEvent {
                id: fresh_id(),
                timestamp,
                event_type: EventType::Navigation,
                target: string_of(&target),
                value_from: from,
                value_to: Some(current.to_app.clone()),
                confidence: current.confidence,
                evidence_frames: single(frame_id),
                metadata: NavigationDetector::create_focus_metadata(&current),
            };
            let ghost want = focus_change_event(current, frame_id@, timestamp);
            assert(event@.sans_id() == want);
            events.push(event);
            assert(sans_ids(events@) =~= seq![want]);
            self.focus_history.push(current);
            if self.focus_history.len() > self.max_history_size {
                let _ = self.focus_history.remove(0);
            }
            assert(self.focus_history@ =~= focus_history_after(
                old(self).focus_history@,
                current,
                old(self).max_history_size as int,
            ));
        } else {
            assert(sans_ids(events@) =~= Seq::<DetectedEventView>::empty());
        }
        Ok(events)
    }

    /// The changes of focus that were reported, oldest first.
    pub fn get_focus_history(&self) -> (r: &Vec<FocusEvent>)
        ensures
            r == &self.focus_history,
    {
        &self.focus_history
    }

    /// The window of the last reading.
    pub fn get_current_window(&self) -> (r: Option<&WindowState>)
        ensures
            match r {
                Some(w) => self.previous_window_state == Some(*w),
                None => self.previous_window_state is None,
            },
    {
        self.previous_window_state.as_ref()
    }

    /// The tab of the last reading.
    pub fn get_current_tab(&self) -> (r: Option<&TabState>)
        ensures
            match r {
                Some(t) => self.previous_tab_state == Some(*t),
                None => self.previous_tab_state is None,
            },
    {
        self.previous_tab_state.as_ref()
    }

    /// Forgets every reading.
    pub fn clear_state(&mut self)
        ensures
            final(self).previous_window_state is None,
            final(self).previous_tab_state is None,
            final(self).focus_history@.len() == 0,
            final(self).config == old(self).config,
            final(self).max_history_size == old(self).max_history_size,
    {
        self.previous_window_state = None;
        self.previous_tab_state = None;
        self.focus_history.clear();
    }

    /// Replaces the configuration.
    pub fn update_config(&mut self, config: NavigationDetectionConfig)
        ensures
            final(self).config == config,
            final(self).previous_window_state == old(self).previous_window_state,
            final(self).previous_tab_state == old(self).previous_tab_state,
            final(self).focus_history == old(self).focus_history,
            final(self).max_history_size == old(self).max_history_size,
    {
        self.config = config;
    }
}

/// What the probes say at one instant. A probe that failed has no reading.
#[derive(Clone, Debug)]
pub struct NavigationReadings {
    pub window: Option<WindowState>,
    /// The tab in front; the inner `None` says that there is no tab.
    pub tab: Option<Option<TabState>>,
    pub focus: Option<FocusEvent>,
}

/// The events, without identifiers, that a reading of the window gives.
pub open spec fn window_events(
    cfg: NavigationDetectionConfig,
    previous: Option<WindowState>,
    reading: Option<WindowState>,
    frame_id: Seq<char>,
    timestamp: i64,
) -> Seq<DetectedEventView> {
    match reading {
        Some(current) => if cfg.enable_window_detection && window_changed(
            cfg,
            previous,
            current,
            timestamp,
        ) {
            seq![window_change_event(cfg, current, previous->Some_0, frame_id, timestamp)]
        } else {
            Seq::empty()
        },
        None => Seq::empty(),
    }
}

/// The events, without identifiers, that a reading of the tab gives.
pub open spec fn tab_events(
    cfg: NavigationDetectionConfig,
    previous: Option<TabState>,
    reading: Option<Option<TabState>>,
    frame_id: Seq<char>,
    timestamp: i64,
) -> Seq<DetectedEventView> {
    match reading {
        Some(Some(current)) => if cfg.enable_tab_detection && tab_changed(
            cfg,
            previous,
            current,
            timestamp,
        ) {
            seq![tab_change_event(cfg, current, previous->Some_0, frame_id, timestamp)]
        } else {
            Seq::empty()
        },
        _ => Seq::empty(),
    }
}

/// The events, without identifiers, that a reading of the focus gives.
pub open spec fn focus_events(
    cfg: NavigationDetectionConfig,
    history: Seq<FocusEvent>,
    reading: Option<FocusEvent>,
    frame_id: Seq<char>,
    timestamp: i64,
) -> Seq<DetectedEventView> {
    match reading {
        Some(current) => if cfg.enable_focus_detection && focus_changed(
            cfg,
            history,
            current,
            timestamp,
        ) {
            seq![focus_change_event(current, frame_id, timestamp)]
        } else {
            Seq::empty()
        },
        None => Seq::empty(),
    }
}

impl NavigationDetector {
    /// Takes the readings of one instant and reports the changes of window,
    /// tab and focus, in this order, each as far as its detection is switched
    /// on and its probe gave a reading.
    pub fn detect_navigation_events(&mut self, frame_id: &str, timestamp: i64, readings: NavigationReadings) -> (r:
        Result<Vec<DetectedEvent>>)
        ensures
            r is Ok,
            sans_ids(r->Ok_0@) == window_events(
                old(self).config,
                old(self).previous_window_state,
                readings.window,
                frame_id@,
                timestamp,
            ) + tab_events(
                old(self).config,
                old(self).previous_tab_state,
                readings.tab,
                frame_id@,
                timestamp,
            ) + focus_events(
                old(self).config,
                old(self).focus_history@,
                readings.focus,
                frame_id@,
                timestamp,
            ),
            final(self).config == old(self).config,
            final(self).max_history_size == old(self).max_history_size,
            final(self).previous_window_state == (if old(self).config.enable_window_detection
                && readings.window is Some {
                readings.window
            } else {
                old(self).previous_window_state
            }),
            final(self).previous_tab_state == (if old(self).config.enable_tab_detection && readings.tab
                is Some && readings.tab->Some_0 is Some {
                readings.tab->Some_0
            } else {
                old(self).previous_tab_state
            }),
            final(self).focus_history@ == (if focus_events(
                old(self).config,
                old(self).focus_history@,
                readings.focus,
                frame_id@,
                timestamp,
            ).len() > 0 {
                focus_history_after(
                    old(self).focus_history@,
                    readings.focus->Some_0,
                    old(self).max_history_size as int,
                )
            } else {
                old(self).focus_history@
            }),
    {
        let mut events: Vec<DetectedEvent> = Vec::new();
        assert(sans_ids(events@) =~= Seq::<DetectedEventView>::empty());
        if self.config.enable_window_detection {
            match readings.window {
                Some(current) => {
                    match self.detect_window_changes(current, frame_id, timestamp) {
                        Ok(mut found) => {
                            let ghost added = sans_ids(found@);
                            events.append(&mut found);
                            assert(sans_ids(events@) =~= added);
                        },
                        Err(_) => {},
                    }
                },
                None => {},
            }
        }
        let ghost first = sans_ids(events@);
        if self.config.enable_tab_detection {
            match readings.tab {
                Some(current) => {
                    match self.detect_tab_changes(current, frame_id, timestamp) {
                        Ok(mut found) => {
                            let ghost added = sans_ids(found@);
                            events.append(&mut found);
                            assert(sans_ids(events@) =~= first + added);
                        },
                        Err(_) => {},
                    }
                },
                None => {},
            }
        }
        let ghost second = sans_ids(events@);
        assert(second =~= first + tab_events(
            old(self).config,
            old(self).previous_tab_state,
            readings.tab,
            frame_id@,
            timestamp,
        ));
        if self.config.enable_focus_detection {
            match readings.focus {
                Some(current) => {
                    match self.detect_focus_changes(current, frame_id, timestamp) {
                        Ok(mut found) => {
                            let ghost added = sans_ids(found@);
                            events.append(&mut found);
                            assert(sans_ids(events@) =~= second + added);
                        },
                        Err(_) => {},
                    }
                },
                None => {},
            }
        }
        assert(sans_ids(events@) =~= second + focus_events(
            old(self).config,
            old(self).focus_history@,
            readings.focus,
            frame_id@,
            timestamp,
        ));
        Ok(events)
    }
}

/// Every reported change of window, tab or focus has a confidence between
/// 0 and 1 and names a frame as evidence, provided the configured
/// confidence and the confidence of the reading of the focus are such
/// scores themselves.
pub proof fn lemma_navigation_events_are_well_formed(
    cfg: NavigationDetectionConfig,
    previous_window: Option<WindowState>,
    previous_tab: Option<TabState>,
    history: Seq<FocusEvent>,
    readings: NavigationReadings,
    frame_id: Seq<char>,
    timestamp: i64,
)
    requires
        cfg.min_confidence <= UNIT,
        readings.focus is Some ==> readings.focus->Some_0.confidence <= UNIT,
    ensures
        ({
            let all = window_events(cfg, previous_window, readings.window, frame_id, timestamp)
                + tab_events(cfg, previous_tab, readings.tab, frame_id, timestamp) + focus_events(
                cfg,
                history,
                readings.focus,
                frame_id,
                timestamp,
            );
            forall|k: int| 0 <= k < all.len() ==> (#[trigger] all[k]).well_formed()
        }),
{
    lemma_scale_bounds(cfg.min_confidence as int, 900_000);
}

} // verus!
