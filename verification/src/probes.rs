//! The answers of the system probes, read into values.
//!
//! A probe answers with one line of text whose parts are separated by a
//! bar, or by a comma for the position of the cursor.

use vstd::prelude::*;
use crate::cursor::CursorPosition;
use crate::error::{IndexerError, Result};
use crate::navigation::{FocusEvent, NavigationDetector, TabState, WindowState};
use crate::text::{
    char_vec,
    option_view,
    parse_i32,
    parse_i32_chars,
    part_views,
    split,
    split_chars,
    string_of,
    trim,
    trim_chars,
};

verus! {

/// The number that a part writes, or 0 where it writes none.
pub open spec fn number_or_zero(part: Seq<char>) -> i32 {
    match parse_i32(part) {
        Some(n) => n,
        None => 0,
    }
}

/// A part as an optional text: none where it is empty.
pub open spec fn text_unless_empty(part: Seq<char>) -> Option<Seq<char>> {
    if part.len() == 0 {
        None
    } else {
        Some(part)
    }
}

fn optional_text(part: &Vec<char>) -> (r: Option<String>)
    ensures
        option_view(r) == text_unless_empty(part@),
{
    if part.len() == 0 {
        None
    } else {
        Some(string_of(part))
    }
}

/// Reads the answer of the window probe: the name of the application, the
/// title of the window, the bundle identifier, the process number and the
/// number of the window, separated by bars. An answer with fewer than five
/// parts is refused. An empty bundle identifier and a window number of 0
/// stand for none; a process number that is no number is read as 0.
pub fn parse_window_response(response: &str, timestamp: i64) -> (r: Result<WindowState>)
    ensures
        ({
            let parts = split(trim(response@), '|');
            if parts.len() < 5 {
                r is Err && r->Err_0 is Navigation && r->Err_0->Navigation_0@
                    == "Invalid AppleScript response"@
            } else {
                &&& r is Ok
                &&& r->Ok_0.app_name@ == parts[0]
                &&& r->Ok_0.window_title@ == parts[1]
                &&& option_view(r->Ok_0.bundle_id) == text_unless_empty(parts[2])
                &&& r->Ok_0.process_id == number_or_zero(parts[3])
                &&& r->Ok_0.window_id == (if parts[4] == seq!['0'] {
                    None
                } else {
                    parse_i32(parts[4])
                })
                &&& r->Ok_0.timestamp == timestamp
            }
        }),
{
    let trimmed = trim_chars(&char_vec(response));
    let parts = split_chars(&trimmed, '|');
    if parts.len() < 5 {
        return Err(IndexerError::Navigation(String::from_str("Invalid AppleScript response")));
    }
    assert(forall|i: int| 0 <= i < parts.len() ==> parts@[i]@ == part_views(parts@)[i]);
    let process_id: i32 = match parse_i32_chars(&parts[3]) {
        Some(n) => n,
        None => 0,
    };
    let is_zero: bool = parts[4].len() == 1 && parts[4][0] == '0';
    assert(is_zero == (parts@[4]@ =~= seq!['0']));
    let window_id = if is_zero {
        None
    } else {
        parse_i32_chars(&parts[4])
    };
    Ok(
        WindowState {
            app_name: string_of(&parts[0]),
            window_title: string_of(&parts[1]),
            window_id,
            bundle_id: optional_text(&parts[2]),
            process_id,
            timestamp,
        },
    )
}

/// Reads the answer of a tab probe of the named application: the title of
/// the tab, its address and its number, separated by bars. An answer with
/// fewer than three parts is refused.
pub fn parse_tab_response(app_name: &str, response: &str, timestamp: i64) -> (r: Result<TabState>)
    ensures
        ({
            let parts = split(trim(response@), '|');
            if parts.len() < 3 {
                r is Err && r->Err_0 is Navigation && r->Err_0->Navigation_0@
                    == "Invalid tab response"@
            } else {
                &&& r is Ok
                &&& r->Ok_0.app_name@ == app_name@
                &&& r->Ok_0.tab_title@ == parts[0]
                &&& option_view(r->Ok_0.url) == text_unless_empty(parts[1])
                &&& r->Ok_0.tab_index == parse_i32(parts[2])
                &&& r->Ok_0.timestamp == timestamp
            }
        }),
{
    let trimmed = trim_chars(&char_vec(response));
    let parts = split_chars(&trimmed, '|');
    if parts.len() < 3 {
        return Err(IndexerError::Navigation(String::from_str("Invalid tab response")));
    }
    assert(forall|i: int| 0 <= i < parts.len() ==> parts@[i]@ == part_views(parts@)[i]);
    Ok(
        TabState {
            app_name: String::from_str(app_name),
            tab_title: string_of(&parts[0]),
            url: optional_text(&parts[1]),
            tab_index: parse_i32_chars(&parts[2]),
            timestamp,
        },
    )
}

/// Reads the answer of the cursor probe: the two numbers of the position,
/// separated by a comma. Any other number of parts is refused, and so is a
/// part that is no number.
pub fn parse_cursor_response(response: &str, timestamp: i64) -> (r: Result<CursorPosition>)
    ensures
        ({
            let parts = split(trim(response@), ',');
            if parts.len() != 2 {
                r is Err && r->Err_0 is CursorTracking && r->Err_0->CursorTracking_0@
                    == "Invalid cursor position response"@
            } else if parse_i32(parts[0]) is None {
                r is Err && r->Err_0 is CursorTracking && r->Err_0->CursorTracking_0@
                    == "Invalid X coordinate"@
            } else if parse_i32(parts[1]) is None {
                r is Err && r->Err_0 is CursorTracking && r->Err_0->CursorTracking_0@
                    == "Invalid Y coordinate"@
            } else {
                r == Ok::<CursorPosition, IndexerError>(
                    CursorPosition {
                        x: parse_i32(parts[0])->Some_0,
                        y: parse_i32(parts[1])->Some_0,
                        timestamp,
                        screen_id: None,
                    },
                )
            }
        }),
{
    let trimmed = trim_chars(&char_vec(response));
    let parts = split_chars(&trimmed, ',');
    if parts.len() != 2 {
        return Err(
            IndexerError::CursorTracking(String::from_str("Invalid cursor position response")),
        );
    }
    assert(forall|i: int| 0 <= i < parts.len() ==> parts@[i]@ == part_views(parts@)[i]);
    let x = match parse_i32_chars(&parts[0]) {
        Some(x) => x,
        None => {
            return Err(IndexerError::CursorTracking(String::from_str("Invalid X coordinate")));
        },
    };
    let y = match parse_i32_chars(&parts[1]) {
        Some(y) => y,
        None => {
            return Err(IndexerError::CursorTracking(String::from_str("Invalid Y coordinate")));
        },
    };
    Ok(CursorPosition { x, y, timestamp, screen_id: None })
}

/// Reads the answer of the application probe: the name of the application
/// and the title of its window, separated by a bar. A missing title is
/// read as "Unknown".
pub fn parse_app_info(response: &str) -> (r: (String, String))
    ensures
        ({
            let parts = split(trim(response@), '|');
            &&& r.0@ == parts[0]
            &&& r.1@ == (if parts.len() >= 2 {
                parts[1]
            } else {
                "Unknown"@
            })
        }),
{
    let trimmed = trim_chars(&char_vec(response));
    let parts = split_chars(&trimmed, '|');
    assert(forall|i: int| 0 <= i < parts.len() ==> parts@[i]@ == part_views(parts@)[i]);
    let title = if parts.len() >= 2 {
        string_of(&parts[1])
    } else {
        String::from_str("Unknown")
    };
    (string_of(&parts[0]), title)
}

/// The reading of the focus that a reading of the window amounts to: the
/// focus goes to the application of the window, from the application of the
/// change of focus that was reported last.
pub fn focus_reading(detector: &NavigationDetector, window: &WindowState, timestamp: i64) -> (f:
    FocusEvent)
    ensures
        f.to_app@ == window.app_name@,
        f.to_bundle_id@ == (match window.bundle_id {
            Some(b) => b@,
            None => "unknown"@,
        }),
        option_view(f.from_app) == (if detector.focus_history@.len() > 0 {
            Some(detector.focus_history@.last().to_app@)
        } else {
            None
        }),
        option_view(f.from_bundle_id) == (if detector.focus_history@.len() > 0 {
            Some(detector.focus_history@.last().to_bundle_id@)
        } else {
            None
        }),
        f.timestamp == timestamp,
        f.confidence == detector.config.min_confidence,
{
    let n = detector.focus_history.len();
    let (from_app, from_bundle_id) = if n > 0 {
        let last = &detector.focus_history[n - 1];
        (Some(last.to_app.clone()), Some(last.to_bundle_id.clone()))
    } else {
        (None, None)
    };
    let to_bundle_id = match &window.bundle_id {
        Some(b) => b.clone(),
        None => String::from_str("unknown"),
    };
    FocusEvent {
        from_app,
        to_app: window.app_name.clone(),
        from_bundle_id,
        to_bundle_id,
        timestamp,
        confidence: detector.config.min_confidence,
    }
}

} // verus!
