//! Which files that appear in the watched directory are video segments
//! that are ready to be processed.

use vstd::prelude::*;
use crate::text::{char_vec, slice_chars, str_eq, string_views};

verus! {

/// The lower-case form of an ASCII letter; any other character as it is.
pub open spec fn ascii_lower(c: char) -> char {
    if 'A' <= c <= 'Z' {
        ((c as u32 + 32) as u8) as char
    } else {
        c
    }
}

/// Whether two texts are the same but for the case of ASCII letters.
pub open spec fn same_ignoring_ascii_case(a: Seq<char>, b: Seq<char>) -> bool {
    a.len() == b.len() && forall|i: int|
        0 <= i < a.len() ==> ascii_lower(#[trigger] a[i]) == ascii_lower(b[i])
}

/// The position of the last dot of a name; none where it has no dot.
pub open spec fn last_dot(name: Seq<char>) -> Option<int>
    decreases name.len(),
{
    if name.len() == 0 {
        None
    } else if name.last() == '.' {
        Some(name.len() - 1)
    } else {
        last_dot(name.drop_last())
    }
}

/// The ending of a file name: what follows its last dot. A name without a
/// dot, or with its only dot in front, has no ending.
pub open spec fn extension_of(name: Seq<char>) -> Option<Seq<char>> {
    match last_dot(name) {
        Some(i) => if i > 0 {
            Some(name.skip(i + 1))
        } else {
            None
        },
        None => None,
    }
}

/// Whether the name of a file ends in one of the given endings, whatever
/// the case of its ASCII letters.
pub open spec fn is_video_name(name: Seq<char>, extensions: Seq<Seq<char>>) -> bool {
    match extension_of(name) {
        Some(ending) => exists|i: int|
            0 <= i < extensions.len() && same_ignoring_ascii_case(#[trigger] extensions[i], ending),
        None => false,
    }
}

/// Whether a file whose size was read twice, half a second apart, is
/// complete: both readings succeeded, agree, and are not 0.
pub open spec fn is_complete(initial_size: Option<u64>, final_size: Option<u64>) -> bool {
    match (initial_size, final_size) {
        (Some(a), Some(b)) => b > 0 && a == b,
        _ => false,
    }
}

/// The time between the two readings of the size of a file, in milliseconds.
pub const SIZE_STABILITY_GAP_MS: u64 = 500;

/// The time that a new file is left alone before its size is read, in milliseconds.
pub const SETTLE_DELAY_MS: u64 = 2000;

fn lower_ascii(c: char) -> (r: char)
    ensures
        r == ascii_lower(c),
{
    if 'A' <= c && c <= 'Z' {
        ((c as u32 + 32) as u8) as char
    } else {
        c
    }
}

/// Whether two texts are the same but for the case of ASCII letters.
pub fn eq_ignore_ascii_case(a: &Vec<char>, b: &Vec<char>) -> (r: bool)
    ensures
        r == same_ignoring_ascii_case(a@, b@),
{
    if a.len() != b.len() {
        return false;
    }
    let mut i: usize = 0;
    while i < a.len()
        invariant
            i <= a.len(),
            a.len() == b.len(),
            forall|k: int| 0 <= k < i ==> ascii_lower(#[trigger] a@[k]) == ascii_lower(b@[k]),
        decreases a.len() - i,
    {
        if lower_ascii(a[i]) != lower_ascii(b[i]) {
            return false;
        }
        i += 1;
    }
    true
}

proof fn lemma_last_dot(name: Seq<char>, i: int)
    requires
        0 <= i < name.len(),
        name[i] == '.',
        forall|k: int| i < k < name.len() ==> name[k] != '.',
    ensures
        last_dot(name) == Some(i),
    decreases name.len(),
{
    if name.last() != '.' {
        lemma_last_dot(name.drop_last(), i);
    }
}

proof fn lemma_no_dot(name: Seq<char>)
    requires
        forall|k: int| 0 <= k < name.len() ==> name[k] != '.',
    ensures
        last_dot(name) is None,
    decreases name.len(),
{
    if name.len() > 0 {
        lemma_no_dot(name.drop_last());
    }
}

/// The ending of a file name.
pub fn file_extension(name: &Vec<char>) -> (r: Option<Vec<char>>)
    ensures
        match r {
            Some(e) => extension_of(name@) == Some(e@),
            None => extension_of(name@) is None,
        },
{
    let mut k: usize = name.len();
    while k > 0
        invariant
            k <= name.len(),
            forall|t: int| k <= t < name.len() ==> name@[t] != '.',
        decreases k,
    {
        if name[k - 1] == '.' {
            proof {
                lemma_last_dot(name@, k - 1);
            }
            if k - 1 == 0 {
                return None;
            }
            let e = slice_chars(name, k, name.len());
            assert(e@ =~= name@.skip(k as int));
            return Some(e);
        }
        k -= 1;
    }
    proof {
        lemma_no_dot(name@);
    }
    None
}

/// Watches for new video segments.
#[derive(Debug)]
pub struct FileWatcher {
    pub watch_dir: String,
    /// The endings of the names of video files, without the dot.
    pub video_extensions: Vec<String>,
}

impl FileWatcher {
    /// A watcher of the given directory for files that end in mp4, mov,
    /// avi, mkv, m4v or webm.
    pub fn new(watch_dir: &str) -> (w: FileWatcher)
        ensures
            w.watch_dir@ == watch_dir@,
            string_views(w.video_extensions@) == seq![
                "mp4"@,
                "mov"@,
                "avi"@,
                "mkv"@,
                "m4v"@,
                "webm"@,
            ],
    {
        let mut video_extensions: Vec<String> = Vec::new();
        video_extensions.push(String::from_str("mp4"));
        video_extensions.push(String::from_str("mov"));
        video_extensions.push(String::from_str("avi"));
        video_extensions.push(String::from_str("mkv"));
        video_extensions.push(String::from_str("m4v"));
        video_extensions.push(String::from_str("webm"));
        assert(string_views(video_extensions@) =~= seq![
            "mp4"@,
            "mov"@,
            "avi"@,
            "mkv"@,
            "m4v"@,
            "webm"@,
        ]);
        FileWatcher { watch_dir: String::from_str(watch_dir), video_extensions }
    }

    /// Whether the name of a file ends in one of the given endings.
    pub fn is_video_file(file_name: &str, video_extensions: &Vec<String>) -> (r: bool)
        ensures
            r == is_video_name(file_name@, string_views(video_extensions@)),
    {
        let name = char_vec(file_name);
        match file_extension(&name) {
            Some(ending) => {
                let mut i: usize = 0;
                while i < video_extensions.len()
                    invariant
                        i <= video_extensions.len(),
                        extension_of(file_name@) == Some(ending@),
                        forall|k: int|
                            0 <= k < i ==> !same_ignoring_ascii_case(
                                #[trigger] string_views(video_extensions@)[k],
                                ending@,
                            ),
                    decreases video_extensions.len() - i,
                {
                    let e = char_vec(video_extensions[i].as_str());
                    if eq_ignore_ascii_case(&e, &ending) {
                        assert(same_ignoring_ascii_case(
                            string_views(video_extensions@)[i as int],
                            ending@,
                        ));
                        return true;
                    }
                    i += 1;
                }
                false
            },
            None => false,
        }
    }

    /// Whether a file whose size was read twice is complete.
    pub fn is_file_complete(initial_size: Option<u64>, final_size: Option<u64>) -> (r: bool)
        ensures
            r == is_complete(initial_size, final_size),
    {
        match (initial_size, final_size) {
            (Some(a), Some(b)) => b > 0 && a == b,
            _ => false,
        }
    }

    /// Adds an ending unless it is there already.
    pub fn add_video_extension(&mut self, extension: String)
        ensures
            final(self).watch_dir == old(self).watch_dir,
            string_views(final(self).video_extensions@) == (if string_views(
                old(self).video_extensions@,
            ).contains(extension@) {
                string_views(old(self).video_extensions@)
            } else {
                string_views(old(self).video_extensions@).push(extension@)
            }),
    {
        let ghost before = string_views(self.video_extensions@);
        let mut i: usize = 0;
        while i < self.video_extensions.len()
            invariant
                i <= self.video_extensions.len(),
                before == string_views(self.video_extensions@),
                self.video_extensions == old(self).video_extensions,
                self.watch_dir == old(self).watch_dir,
                forall|k: int| 0 <= k < i ==> before[k] != extension@,
            decreases self.video_extensions.len() - i,
        {
            if str_eq(self.video_extensions[i].as_str(), extension.as_str()) {
                assert(before[i as int] == extension@);
                return;
            }
            i += 1;
        }
        self.video_extensions.push(extension);
        assert(string_views(self.video_extensions@) =~= before.push(extension@));
    }

    /// Replaces the endings.
    pub fn set_video_extensions(&mut self, extensions: Vec<String>)
        ensures
            final(self).video_extensions == extensions,
            final(self).watch_dir == old(self).watch_dir,
    {
        self.video_extensions = extensions;
    }
}

} // verus!
