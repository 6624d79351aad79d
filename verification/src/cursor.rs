//! Cursor positions and clicks as they are handed to the correlator.

use vstd::prelude::*;
use crate::error::Result;
use crate::events::{sans_ids, DetectedEvent, DetectedEventView, EventType};
use crate::ids::fresh_id;
use crate::keyvalue::{optional_decimal, with_optional, Metadata};
use crate::text::{
    char_vec,
    decimal_string,
    push_signed_decimal,
    push_str_chars,
    signed_decimal_string,
    single,
    spec_decimal,
    spec_signed_decimal,
    string_of,
    };
use crate::units::{integer_sqrt, isqrt, lemma_scale_bounds, scale, scale_by, UNIT};

verus! {

/// Where the cursor was at some instant, in whole pixels.
#[derive(Clone, Copy, Debug, PartialEq, Eq, Structural)]
pub struct CursorPosition {
    pub x: i32,
    pub y: i32,
    /// In nanoseconds since the epoch.
    pub timestamp: i64,
    pub screen_id: Option<i32>,
}

/// The buttons of a mouse.
#[derive(Clone, Copy, Debug, PartialEq, Eq, Structural)]
pub enum MouseButton {
    Left,
    Right,
    Middle,
    Other(i32),
}

/// What was done with a button.
#[derive(Clone, Copy, Debug, PartialEq, Eq, Structural)]
pub enum ClickType {
    Press,
    Release,
    Drag,
    Scroll,
}

/// The modifier keys that can be held during a click.
#[derive(Clone, Copy, Debug, PartialEq, Eq, Structural)]
pub enum KeyModifier {
    Command,
    Option,
    Control,
    Shift,
    Function,
}

/// The shapes of a movement of the cursor.
#[derive(Clone, Copy, Debug, PartialEq, Eq, Structural)]
pub enum TrailType {
    /// In a straight line.
    Linear,
    /// In a smooth curve.
    Curved,
    /// Jittery or random.
    Erratic,
    /// In a circle or an arc.
    Circular,
    /// Hardly moving.
    Stationary,
}

/// A click of a mouse button.
#[derive(Clone, Debug)]
pub struct ClickEvent {
    pub position: CursorPosition,
    pub button: MouseButton,
    pub click_type: ClickType,
    /// 2 for a double click, 3 for a triple click.
    pub click_count: i32,
    pub modifiers: Vec<KeyModifier>,
    /// In millionths.
    pub confidence: u32,
}

impl MouseButton {
    /// The name of the button; for another button, "Other" and its number
    /// in brackets.
    pub open spec fn spec_name(self) -> Seq<char> {
        match self {
            MouseButton::Left => "Left"@,
            MouseButton::Right => "Right"@,
            MouseButton::Middle => "Middle"@,
            MouseButton::Other(n) => "Other("@ + spec_signed_decimal(n as int) + seq![')'],
        }
    }

    /// The name of the button.
    pub fn name(&self) -> (s: String)
        ensures
            s@ == self.spec_name(),
    {
        match self {
            MouseButton::Left => String::from_str("Left"),
            MouseButton::Right => String::from_str("Right"),
            MouseButton::Middle => String::from_str("Middle"),
            MouseButton::Other(n) => {
                let mut out = char_vec("Other(");
                push_signed_decimal(&mut out, *n as i64);
                out.push(')');
                assert(out@ =~= self.spec_name());
                string_of(&out)
            },
        }
    }
}

impl ClickType {
    pub open spec fn spec_name(self) -> Seq<char> {
        match self {
            ClickType::Press => "Press"@,
            ClickType::Release => "Release"@,
            ClickType::Drag => "Drag"@,
            ClickType::Scroll => "Scroll"@,
        }
    }

    /// The name of what was done.
    pub fn name(&self) -> (s: &'static str)
        ensures
            s@ == self.spec_name(),
    {
        match self {
            ClickType::Press => "Press",
            ClickType::Release => "Release",
            ClickType::Drag => "Drag",
            ClickType::Scroll => "Scroll",
        }
    }
}

impl KeyModifier {
    pub open spec fn spec_name(self) -> Seq<char> {
        match self {
            KeyModifier::Command => "Command"@,
            KeyModifier::Option => "Option"@,
            KeyModifier::Control => "Control"@,
            KeyModifier::Shift => "Shift"@,
            KeyModifier::Function => "Function"@,
        }
    }

    /// The name of the key.
    pub fn name(&self) -> (s: &'static str)
        ensures
            s@ == self.spec_name(),
    {
        match self {
            KeyModifier::Command => "Command",
            KeyModifier::Option => "Option",
            KeyModifier::Control => "Control",
            KeyModifier::Shift => "Shift",
            KeyModifier::Function => "Function",
        }
    }
}

impl TrailType {
    pub open spec fn spec_name(self) -> Seq<char> {
        match self {
            TrailType::Linear => "Linear"@,
            TrailType::Curved => "Curved"@,
            TrailType::Erratic => "Erratic"@,
            TrailType::Circular => "Circular"@,
            TrailType::Stationary => "Stationary"@,
        }
    }

    /// The name of the shape.
    pub fn name(&self) -> (s: &'static str)
        ensures
            s@ == self.spec_name(),
    {
        match self {
            TrailType::Linear => "Linear",
            TrailType::Curved => "Curved",
            TrailType::Erratic => "Erratic",
            TrailType::Circular => "Circular",
            TrailType::Stationary => "Stationary",
        }
    }
}

/// A click as a value.
pub struct ClickEventView {
    pub position: CursorPosition,
    pub button: MouseButton,
    pub click_type: ClickType,
    pub click_count: i32,
    pub modifiers: Seq<KeyModifier>,
    pub confidence: u32,
}

impl View for ClickEvent {
    type V = ClickEventView;

    open spec fn view(&self) -> ClickEventView {
        ClickEventView {
            position: self.position,
            button: self.button,
            click_type: self.click_type,
            click_count: self.click_count,
            modifiers: self.modifiers@,
            confidence: self.confidence,
        }
    }
}

/// The clicks as values.
pub open spec fn click_views(clicks: Seq<ClickEvent>) -> Seq<ClickEventView> {
    Seq::new(clicks.len(), |i: int| clicks[i]@)
}

/// How the cursor is tracked.
#[derive(Clone, Copy, Debug, PartialEq, Eq, Structural)]
pub struct CursorTrackingConfig {
    pub enable_position_tracking: bool,
    pub enable_click_detection: bool,
    pub enable_trail_analysis: bool,
    /// The least distance of a reported movement, in pixels.
    pub min_movement_distance: u32,
    /// The longest time over which a trail is followed, in milliseconds.
    pub max_trail_gap_ms: u64,
    /// The confidence of the reported events, in millionths.
    pub min_confidence: u32,
    /// The time between two readings, in milliseconds.
    pub sampling_interval_ms: u64,
}

impl CursorTrackingConfig {
    pub open spec fn spec_default() -> CursorTrackingConfig {
        CursorTrackingConfig {
            enable_position_tracking: true,
            enable_click_detection: true,
            enable_trail_analysis: true,
            min_movement_distance: 5,
            max_trail_gap_ms: 1000,
            min_confidence: 800_000,
            sampling_interval_ms: 100,
        }
    }
}

impl Default for CursorTrackingConfig {
    fn default() -> (c: Self)
        ensures
            c == CursorTrackingConfig::spec_default(),
    {
        CursorTrackingConfig {
            enable_position_tracking: true,
            enable_click_detection: true,
            enable_trail_analysis: true,
            min_movement_distance: 5,
            max_trail_gap_ms: 1000,
            min_confidence: 800_000,
            sampling_interval_ms: 100,
        }
    }
}

/// The square of the distance between two positions, in square pixels.
pub open spec fn distance_sq(a: CursorPosition, b: CursorPosition) -> int {
    (b.x - a.x) * (b.x - a.x) + (b.y - a.y) * (b.y - a.y)
}

/// The square of the distance between two positions.
pub fn squared_distance(a: &CursorPosition, b: &CursorPosition) -> (d: u128)
    ensures
        d as int == distance_sq(*a, *b),
        d <= 0x2_0000_0000_0000_0000,
{
    let dx: i128 = b.x as i128 - a.x as i128;
    let dy: i128 = b.y as i128 - a.y as i128;
    proof {
        let m: int = 0x1_0000_0000;
        assert(0 <= dx * dx <= m * m && 0 <= dy * dy <= m * m) by (nonlinear_arith)
            requires
                -m <= dx <= m,
                -m <= dy <= m,
        ;
    }
    (dx * dx + dy * dy) as u128
}

/// A position as text: the two numbers with a comma between them.
pub open spec fn position_text(p: CursorPosition) -> Seq<char> {
    spec_signed_decimal(p.x as int) + seq![','] + spec_signed_decimal(p.y as int)
}

fn position_string(p: &CursorPosition) -> (s: String)
    ensures
        s@ == position_text(*p),
{
    let mut out: Vec<char> = Vec::new();
    push_signed_decimal(&mut out, p.x as i64);
    out.push(',');
    push_signed_decimal(&mut out, p.y as i64);
    assert(out@ =~= position_text(*p));
    string_of(&out)
}

/// The notes of a movement of the cursor from `last` to `current`: the
/// distance in thousandths of a pixel, both positions, and the screen where
/// it is known.
pub open spec fn movement_notes(current: CursorPosition, last: CursorPosition) -> Seq<(Seq<char>, Seq<char>)> {
    with_optional(
        seq![
            ("event_type"@, "cursor_movement"@),
            ("distance"@, spec_decimal(isqrt((distance_sq(last, current) * 1_000_000) as nat))),
            ("current_x"@, spec_signed_decimal(current.x as int)),
            ("current_y"@, spec_signed_decimal(current.y as int)),
            ("previous_x"@, spec_signed_decimal(last.x as int)),
            ("previous_y"@, spec_signed_decimal(last.y as int)),
        ],
        "screen_id"@,
        optional_decimal(current.screen_id),
    )
}

/// The event, without identifier, of a movement of the cursor from `last`
/// to `current`.
pub open spec fn movement_event(
    cfg: CursorTrackingConfig,
    current: CursorPosition,
    last: CursorPosition,
    frame_id: Seq<char>,
    timestamp: i64,
) -> DetectedEventView {
    DetectedEventView {
        id: Seq::empty(),
        timestamp,
        event_type: EventType::Navigation,
        target: "cursor_movement"@,
        value_from: Some(position_text(last)),
        value_to: Some(position_text(current)),
        confidence: cfg.min_confidence,
        evidence_frames: seq![frame_id],
        metadata: movement_notes(current, last),
    }
}

/// Whether the cursor has moved far enough from `last` to `current` for
/// the movement to be reported.
pub open spec fn moved(cfg: CursorTrackingConfig, last: Option<CursorPosition>, current: CursorPosition) -> bool {
    match last {
        Some(l) => distance_sq(l, current) >= cfg.min_movement_distance * cfg.min_movement_distance,
        None => false,
    }
}

/// A history after one more entry, cut at its front to at most `max` entries.
pub open spec fn history_after<A>(history: Seq<A>, item: A, max: int) -> Seq<A> {
    let grown = history.push(item);
    if grown.len() > max {
        grown.skip(grown.len() - max)
    } else {
        grown
    }
}

/// The names of the modifier keys, with commas between them.
pub open spec fn modifier_names(modifiers: Seq<KeyModifier>) -> Seq<char>
    decreases modifiers.len(),
{
    if modifiers.len() == 0 {
        Seq::empty()
    } else if modifiers.len() == 1 {
        modifiers[0].spec_name()
    } else {
        modifier_names(modifiers.drop_last()).push(',') + modifiers.last().spec_name()
    }
}

/// The notes of a click.
pub open spec fn click_notes(click: ClickEventView) -> Seq<(Seq<char>, Seq<char>)> {
    let base = seq![
        ("event_type"@, "mouse_click"@),
        ("button"@, click.button.spec_name()),
        ("click_type"@, click.click_type.spec_name()),
        ("click_count"@, spec_signed_decimal(click.click_count as int)),
        ("x"@, spec_signed_decimal(click.position.x as int)),
        ("y"@, spec_signed_decimal(click.position.y as int)),
    ];
    if click.modifiers.len() > 0 {
        base.push(("modifiers"@, modifier_names(click.modifiers)))
    } else {
        base
    }
}

/// The event, without identifier, of a click.
pub open spec fn click_detected_event(click: ClickEventView, frame_id: Seq<char>, timestamp: i64) -> DetectedEventView {
    DetectedEventView {
        id: Seq::empty(),
        timestamp,
        event_type: EventType::Navigation,
        target: "click_"@ + spec_signed_decimal(click.position.x as int) + seq!['_']
            + spec_signed_decimal(click.position.y as int),
        value_from: None,
        value_to: Some(click.button.spec_name()),
        confidence: click.confidence,
        evidence_frames: seq![frame_id],
        metadata: click_notes(click),
    }
}

/// Whether the positions before the newest, up to four of them, all lie
/// less than 5 pixels from the newest.
pub open spec fn stable(history: Seq<CursorPosition>) -> bool {
    forall|k: int|
        1 <= k < 5 && k < history.len() ==> distance_sq(
            history[history.len() - 1],
            #[trigger] history[history.len() - 1 - k],
        ) < 25
}

/// The click that the history of positions suggests: the cursor came from
/// more than 10 pixels away, seven readings ago, and has rested since. The
/// click is taken to be a press of the left button, with 0.7 of the
/// configured confidence.
pub open spec fn click_pattern(cfg: CursorTrackingConfig, history: Seq<CursorPosition>) -> Option<
    ClickEventView,
> {
    if history.len() >= 7 && stable(history) && distance_sq(
        history[history.len() - 7],
        history[history.len() - 1],
    ) > 100 {
        Some(
            ClickEventView {
                position: history[history.len() - 1],
                button: MouseButton::Left,
                click_type: ClickType::Press,
                click_count: 1,
                modifiers: Seq::empty(),
                confidence: scale(cfg.min_confidence as int, 700_000) as u32,
            },
        )
    } else {
        None
    }
}

/// Follows the cursor and reports its movements and the clicks that its
/// movements suggest.
#[derive(Debug)]
pub struct CursorTracker {
    pub config: CursorTrackingConfig,
    /// The positions of the last readings, oldest first.
    pub position_history: Vec<CursorPosition>,
    /// The clicks that were reported, oldest first.
    pub click_history: Vec<ClickEvent>,
    /// The most positions that are remembered; a tenth as many clicks are.
    pub max_history_size: usize,
    pub last_position: Option<CursorPosition>,
}

impl CursorTracker {
    /// A tracker with the default configuration.
    pub fn new() -> (t: CursorTracker)
        ensures
            t.config == CursorTrackingConfig::spec_default(),
            t.position_history@.len() == 0,
            t.click_history@.len() == 0,
            t.max_history_size == 1000,
            t.last_position is None,
    {
        CursorTracker::with_config(CursorTrackingConfig::default())
    }

    /// A tracker with the given configuration that has seen nothing yet.
    pub fn with_config(config: CursorTrackingConfig) -> (t: CursorTracker)
        ensures
            t.config == config,
            t.position_history@.len() == 0,
            t.click_history@.len() == 0,
            t.max_history_size == 1000,
            t.last_position is None,
    {
        CursorTracker {
            config,
            position_history: Vec::new(),
            click_history: Vec::new(),
            max_history_size: 1000,
            last_position: None,
        }
    }

    /// The distance between two positions, in thousandths of a pixel.
    pub fn calculate_distance(&self, pos1: &CursorPosition, pos2: &CursorPosition) -> (d: u64)
        ensures
            d as nat == isqrt((distance_sq(*pos1, *pos2) * 1_000_000) as nat),
    {
        let d2 = squared_distance(pos1, pos2);
        integer_sqrt(d2 * 1_000_000)
    }

    /// The notes of a movement.
    pub fn create_position_metadata(&self, current: &CursorPosition, previous: &CursorPosition) -> (m:
        Metadata)
        ensures
            m@ == movement_notes(*current, *previous),
    {
        let mut m = Metadata::new();
        m.add("event_type", String::from_str("cursor_movement"));
        m.add("distance", decimal_string(self.calculate_distance(previous, current)));
        m.add("current_x", signed_decimal_string(current.x as i64));
        m.add("current_y", signed_decimal_string(current.y as i64));
        m.add("previous_x", signed_decimal_string(previous.x as i64));
        m.add("previous_y", signed_decimal_string(previous.y as i64));
        assert(m@ =~= seq![
            ("event_type"@, "cursor_movement"@),
            ("distance"@, spec_decimal(isqrt((distance_sq(*previous, *current) * 1_000_000) as nat))),
            ("current_x"@, spec_signed_decimal(current.x as int)),
            ("current_y"@, spec_signed_decimal(current.y as int)),
            ("previous_x"@, spec_signed_decimal(previous.x as int)),
            ("previous_y"@, spec_signed_decimal(previous.y as int)),
        ]);
        match current.screen_id {
            Some(id) => {
                m.add("screen_id", signed_decimal_string(id as i64));
            },
            None => {},
        }
        m
    }

    /// Takes a reading of the position of the cursor and reports the
    /// movement since the last reading where it is far enough. The reading
    /// is remembered.
    pub fn track_cursor_position(&mut self, current: CursorPosition, frame_id: &str, timestamp: i64) -> (r:
        Result<Vec<DetectedEvent>>)
        ensures
            r is Ok,
            sans_ids(r->Ok_0@) == (if moved(old(self).config, old(self).last_position, current) {
                seq![
                    movement_event(
                        old(self).config,
                        current,
                        old(self).last_position->Some_0,
                        frame_id@,
                        timestamp,
                    ),
                ]
            } else {
                Seq::empty()
            }),
            final(self).position_history@ == history_after(
                old(self).position_history@,
                current,
                old(self).max_history_size as int,
            ),
            final(self).last_position == Some(current),
            final(self).config == old(self).config,
            final(self).click_history == old(self).click_history,
            final(self).max_history_size == old(self).max_history_size,
    {
        let mut events: Vec<DetectedEvent> = Vec::new();
        match self.last_position {
            Some(last) => {
                let d2 = squared_distance(&last, &current);
                proof {
                    assert(0 <= self.config.min_movement_distance as int
                        * self.config.min_movement_distance as int <= 0xffff_ffff * 0xffff_ffff)
                        by (nonlinear_arith)
                        requires
                            0 <= self.config.min_movement_distance as int <= 0xffff_ffff,
                    ;
                }
                let least: u128 = (self.config.min_movement_distance as u128) * (
                self.config.min_movement_distance as u128);
                if d2 >= least {
                    let event = DetectedEvent {
                        id: fresh_id(),
                        timestamp,
                        event_type: EventType::Navigation,
                        target: String::from_str("cursor_movement"),
                        value_from: Some(position_string(&last)),
                        value_to: Some(position_string(&current)),
                        confidence: self.config.min_confidence,
                        evidence_frames: single(frame_id),
                        metadata: self.create_position_metadata(&current, &last),
                    };
                    let ghost want = movement_event(self.config, current, last, frame_id@, timestamp);
                    assert(event@.sans_id() == want);
                    events.push(event);
                    assert(sans_ids(events@) =~= seq![want]);
                }
            },
            None => {},
        }
        if events.len() == 0 {
            assert(sans_ids(events@) =~= Seq::<DetectedEventView>::empty());
        }
        let ghost grown = self.position_history@.push(current);
        self.position_history.push(current);
        assert(grown.len() == self.position_history.len());
        let mut dropped: usize = 0;
        while self.position_history.len() > self.max_history_size
            invariant
                self.position_history@ == grown.skip(dropped as int),
                self.position_history.len() + dropped == grown.len(),
                grown.len() <= usize::MAX,
                dropped == 0 || self.position_history.len() >= self.max_history_size,
                self.config == old(self).config,
                self.click_history == old(self).click_history,
                self.max_history_size == old(self).max_history_size,
                self.last_position == old(self).last_position,
            decreases self.position_history.len(),
        {
            let ghost current_view = self.position_history@;
            let _ = self.position_history.remove(0);
            assert(self.position_history@ =~= grown.skip(dropped + 1));
            dropped += 1;
        }
        assert(grown.skip(0) =~= grown);
        self.last_position = Some(current);
        Ok(events)
    }

    /// The click that the history of positions suggests.
    pub fn detect_click_pattern(&self) -> (r: Result<Option<ClickEvent>>)
        ensures
            r is Ok,
            match click_pattern(self.config, self.position_history@) {
                Some(c) => r->Ok_0 is Some && r->Ok_0->Some_0@ == c,
                None => r->Ok_0 is None,
            },
    {
        let n = self.position_history.len();
        if n < 7 {
            return Ok(None);
        }
        let center = self.position_history[n - 1];
        let mut k: usize = 1;
        while k < 5
            invariant
                1 <= k <= 5,
                n == self.position_history.len(),
                n >= 7,
                center == self.position_history@[n - 1],
                forall|t: int|
                    1 <= t < k ==> distance_sq(center, #[trigger] self.position_history@[n - 1 - t])
                        < 25,
            decreases 5 - k,
        {
            if squared_distance(&center, &self.position_history[n - 1 - k]) >= 25 {
                assert(!stable(self.position_history@));
                return Ok(None);
            }
            k += 1;
        }
        assert(stable(self.position_history@));
        if squared_distance(&self.position_history[n - 7], &center) > 100 {
            let click = ClickEvent {
                position: center,
                button: MouseButton::Left,
                click_type: ClickType::Press,
                click_count: 1,
                modifiers: Vec::new(),
                confidence: scale_by(self.config.min_confidence, 700_000),
            };
            assert(click@.modifiers =~= Seq::<KeyModifier>::empty());
            Ok(Some(click))
        } else {
            Ok(None)
        }
    }

    /// The notes of a click.
    pub fn create_click_metadata(&self, click: &ClickEvent) -> (m: Metadata)
        ensures
            m@ == click_notes(click@),
    {
        let mut m = Metadata::new();
        m.add("event_type", String::from_str("mouse_click"));
        m.add("button", click.button.name());
        m.add("click_type", String::from_str(click.click_type.name()));
        m.add("click_count", signed_decimal_string(click.click_count as i64));
        m.add("x", signed_decimal_string(click.position.x as i64));
        m.add("y", signed_decimal_string(click.position.y as i64));
        assert(m@ =~= seq![
            ("event_type"@, "mouse_click"@),
            ("button"@, click.button.spec_name()),
            ("click_type"@, click.click_type.spec_name()),
            ("click_count"@, spec_signed_decimal(click.click_count as int)),
            ("x"@, spec_signed_decimal(click.position.x as int)),
            ("y"@, spec_signed_decimal(click.position.y as int)),
        ]);
        if click.modifiers.len() > 0 {
            let mut names = char_vec(click.modifiers[0].name());
            assert(click.modifiers@.take(1) =~= seq![click.modifiers@[0]]);
            let mut i: usize = 1;
            while i < click.modifiers.len()
                invariant
                    1 <= i <= click.modifiers.len(),
                    names@ == modifier_names(click.modifiers@.take(i as int)),
                decreases click.modifiers.len() - i,
            {
                assert(click.modifiers@.take(i + 1).drop_last() =~= click.modifiers@.take(i as int));
                names.push(',');
                push_str_chars(&mut names, click.modifiers[i].name());
                i += 1;
            }
            assert(click.modifiers@.take(click.modifiers.len() as int) =~= click.modifiers@);
            m.add("modifiers", string_of(&names));
        }
        m
    }

    /// Reports the click that the history of positions suggests, if any,
    /// and remembers it.
    pub fn detect_click_events(&mut self, frame_id: &str, timestamp: i64) -> (r: Result<
        Vec<DetectedEvent>,
    >)
        ensures
            r is Ok,
            sans_ids(r->Ok_0@) == (match click_pattern(old(self).config, old(self).position_history@) {
                Some(c) => seq![click_detected_event(c, frame_id@, timestamp)],
                None => Seq::empty(),
            }),
            click_views(final(self).click_history@) == (match click_pattern(
                old(self).config,
                old(self).position_history@,
            ) {
                Some(c) => history_after(
                    click_views(old(self).click_history@),
                    c,
                    old(self).max_history_size as int / 10,
                ),
                None => click_views(old(self).click_history@),
            }),
            final(self).config == old(self).config,
            final(self).position_history == old(self).position_history,
            final(self).max_history_size == old(self).max_history_size,
            final(self).last_position == old(self).last_position,
    {
        let mut events: Vec<DetectedEvent> = Vec::new();
        let found = match self.detect_click_pattern() {
            Ok(f) => f,
            Err(e) => {
                return Err(e);
            },
        };
        match found {
            Some(click) => {
                let mut target = char_vec("click_");
                push_signed_decimal(&mut target, click.position.x as i64);
                target.push('_');
                push_signed_decimal(&mut target, click.position.y as i64);
                let event = DetectedEvent {
                    id: fresh_id(),
                    timestamp,
                    event_type: EventType::Navigation,
                    target: string_of(&target),
                    value_from: None,
                    value_to: Some(click.button.name()),
                    confidence: click.confidence,
                    evidence_frames: single(frame_id),
                    metadata: self.create_click_metadata(&click),
                };
                let ghost want = click_detected_event(click@, frame_id@, timestamp);
                assert(event@.target =~= want.target);
                assert(event@.sans_id() == want);
                events.push(event);
                assert(sans_ids(events@) =~= seq![want]);
                let ghost before = click_views(self.click_history@);
                let ghost grown = before.push(click@);
                self.click_history.push(click);
                assert(click_views(self.click_history@) =~= grown);
                assert(grown.len() == self.click_history.len());
                let limit: usize = self.max_history_size / 10;
                let mut dropped: usize = 0;
                while self.click_history.len() > limit
                    invariant
                        click_views(self.click_history@) == grown.skip(dropped as int),
                        self.click_history.len() + dropped == grown.len(),
                        grown.len() <= usize::MAX,
                        dropped == 0 || self.click_history.len() >= limit,
                        limit == old(self).max_history_size / 10,
                        self.config == old(self).config,
                        self.position_history == old(self).position_history,
                        self.max_history_size == old(self).max_history_size,
                        self.last_position == old(self).last_position,
                    decreases self.click_history.len(),
                {
                    let ghost current = click_views(self.click_history@);
                    let _ = self.click_history.remove(0);
                    assert(click_views(self.click_history@) =~= current.drop_first());
                    assert(current.drop_first() =~= grown.skip(dropped + 1));
                    dropped += 1;
                }
                assert(grown.skip(0) =~= grown);
            },
            None => {
                assert(sans_ids(events@) =~= Seq::<DetectedEventView>::empty());
            },
        }
        Ok(events)
    }

    /// The positions of the last readings, oldest first.
    pub fn get_position_history(&self) -> (r: &Vec<CursorPosition>)
        ensures
            r == &self.position_history,
    {
        &self.position_history
    }

    /// The clicks that were reported, oldest first.
    pub fn get_click_history(&self) -> (r: &Vec<ClickEvent>)
        ensures
            r == &self.click_history,
    {
        &self.click_history
    }

    /// The position of the last reading.
    pub fn get_current_position(&self) -> (r: Option<CursorPosition>)
        ensures
            r == self.last_position,
    {
        self.last_position
    }

    /// Forgets every reading and every click.
    pub fn clear_history(&mut self)
        ensures
            final(self).position_history@.len() == 0,
            final(self).click_history@.len() == 0,
            final(self).last_position is None,
            final(self).config == old(self).config,
            final(self).max_history_size == old(self).max_history_size,
    {
        self.position_history.clear();
        self.click_history.clear();
        self.last_position = None;
    }

    /// Replaces the configuration.
    pub fn update_config(&mut self, config: CursorTrackingConfig)
        ensures
            final(self).config == config,
            final(self).position_history == old(self).position_history,
            final(self).click_history == old(self).click_history,
            final(self).max_history_size == old(self).max_history_size,
            final(self).last_position == old(self).last_position,
    {
        self.config = config;
    }
}

/// The events, without identifiers, that a reading of the position gives.
pub open spec fn position_events(
    cfg: CursorTrackingConfig,
    last: Option<CursorPosition>,
    reading: Option<CursorPosition>,
    frame_id: Seq<char>,
    timestamp: i64,
) -> Seq<DetectedEventView> {
    match reading {
        Some(current) => if cfg.enable_position_tracking && moved(cfg, last, current) {
            seq![movement_event(cfg, current, last->Some_0, frame_id, timestamp)]
        } else {
            Seq::empty()
        },
        None => Seq::empty(),
    }
}

/// The positions that are remembered after a reading.
pub open spec fn positions_after(
    cfg: CursorTrackingConfig,
    history: Seq<CursorPosition>,
    reading: Option<CursorPosition>,
    max: int,
) -> Seq<CursorPosition> {
    match reading {
        Some(current) => if cfg.enable_position_tracking {
            history_after(history, current, max)
        } else {
            history
        },
        None => history,
    }
}

/// The click, if any, that is reported after the positions `history`.
pub open spec fn reported_click(cfg: CursorTrackingConfig, history: Seq<CursorPosition>) -> Option<
    ClickEventView,
> {
    if cfg.enable_click_detection {
        click_pattern(cfg, history)
    } else {
        None
    }
}

/// The events, without identifiers, that the positions `history` give by
/// the click that they suggest.
pub open spec fn click_events(
    cfg: CursorTrackingConfig,
    history: Seq<CursorPosition>,
    frame_id: Seq<char>,
    timestamp: i64,
) -> Seq<DetectedEventView> {
    match reported_click(cfg, history) {
        Some(c) => seq![click_detected_event(c, frame_id, timestamp)],
        None => Seq::empty(),
    }
}

impl CursorTracker {
    /// Takes a reading of the position of the cursor, if the probe gave
    /// one, and reports the movement and the click that follow from it, each
    /// as far as it is switched on.
    pub fn track_cursor_events(&mut self, frame_id: &str, timestamp: i64, reading: Option<CursorPosition>) -> (r:
        Result<Vec<DetectedEvent>>)
        ensures
            r is Ok,
            final(self).config == old(self).config,
            final(self).max_history_size == old(self).max_history_size,
            final(self).position_history@ == positions_after(
                old(self).config,
                old(self).position_history@,
                reading,
                old(self).max_history_size as int,
            ),
            final(self).last_position == (if old(self).config.enable_position_tracking && reading
                is Some {
                reading
            } else {
                old(self).last_position
            }),
            sans_ids(r->Ok_0@) == position_events(
                old(self).config,
                old(self).last_position,
                reading,
                frame_id@,
                timestamp,
            ) + click_events(old(self).config, final(self).position_history@, frame_id@, timestamp),
            click_views(final(self).click_history@) == (match reported_click(
                old(self).config,
                final(self).position_history@,
            ) {
                Some(c) => history_after(
                    click_views(old(self).click_history@),
                    c,
                    old(self).max_history_size as int / 10,
                ),
                None => click_views(old(self).click_history@),
            }),
    {
        let mut events: Vec<DetectedEvent> = Vec::new();
        assert(sans_ids(events@) =~= Seq::<DetectedEventView>::empty());
        if self.config.enable_position_tracking {
            match reading {
                Some(current) => {
                    match self.track_cursor_position(current, frame_id, timestamp) {
                        Ok(mut found) => {
                            let ghost added = sans_ids(found@);
                            events.append(&mut found);
                            assert(sans_ids(events@) =~= added);
                        },
                        Err(_) => {},
                    }
                },
                None => {},
            }
        }
        let ghost first = sans_ids(events@);
        if self.config.enable_click_detection {
            match self.detect_click_events(frame_id, timestamp) {
                Ok(mut found) => {
                    let ghost added = sans_ids(found@);
                    events.append(&mut found);
                    assert(sans_ids(events@) =~= first + added);
                },
                Err(_) => {},
            }
        } else {
            assert(first + Seq::<DetectedEventView>::empty() =~= first);
        }
        Ok(events)
    }
}

/// Every reported movement and click has a confidence between 0 and 1 and
/// names a frame as evidence, provided the configured confidence is such a
/// score itself.
pub proof fn lemma_cursor_events_are_well_formed(
    cfg: CursorTrackingConfig,
    last: Option<CursorPosition>,
    reading: Option<CursorPosition>,
    history: Seq<CursorPosition>,
    frame_id: Seq<char>,
    timestamp: i64,
)
    requires
        cfg.min_confidence <= UNIT,
    ensures
        ({
            let all = position_events(cfg, last, reading, frame_id, timestamp) + click_events(
                cfg,
                history,
                frame_id,
                timestamp,
            );
            forall|k: int| 0 <= k < all.len() ==> (#[trigger] all[k]).well_formed()
        }),
{
    lemma_scale_bounds(cfg.min_confidence as int, 700_000);
}

} // verus!
