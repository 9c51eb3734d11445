//! The file name of a Windows path.

use vstd::prelude::*;

use crate::text::{chars_of, text_of};

verus! {

/// Whether a character separates the components of an ordinary path.
pub open spec fn is_separator(c: char) -> bool {
    c == '\\' || c == '/'
}

/// Whether a path is verbatim: it starts with `\\?\`, and what follows is not interpreted.
pub open spec fn is_verbatim(path: Seq<char>) -> bool {
    path.len() >= 4 && path[0] == '\\' && path[1] == '\\' && path[2] == '?' && path[3] == '\\'
}

/// Whether a character separates components: in a verbatim path only the backslash does.
pub open spec fn separates(c: char, verbatim: bool) -> bool {
    c == '\\' || (c == '/' && !verbatim)
}

/// Whether a character is an ASCII letter.
pub open spec fn is_letter(c: char) -> bool {
    'a' <= c <= 'z' || 'A' <= c <= 'Z'
}

/// Where the run of characters that are not separators, from `start` on, ends.
pub open spec fn run_end(path: Seq<char>, start: int, verbatim: bool) -> int
    decreases path.len() - start,
{
    if start >= path.len() || separates(path[start], verbatim) {
        start
    } else {
        run_end(path, start + 1, verbatim)
    }
}

/// Where the run of characters that are not separators, before `end`, starts.
pub open spec fn run_start(path: Seq<char>, end: int, verbatim: bool) -> int
    decreases end,
{
    if end <= 0 || separates(path[end - 1], verbatim) {
        end
    } else {
        run_start(path, end - 1, verbatim)
    }
}

/// Whether a drive, such as `C:`, stands at a place.
pub open spec fn drive_at(path: Seq<char>, at: int) -> bool {
    path.len() >= at + 2 && is_letter(path[at]) && path[at + 1] == ':'
}

/// How many characters name the volume of an ordinary path: a drive, such as `C:`, or a server and a
/// share, such as `\\server\share`.
pub open spec fn ordinary_volume_len(path: Seq<char>) -> int {
    if drive_at(path, 0) {
        2
    } else if path.len() >= 2 && is_separator(path[0]) && is_separator(path[1]) {
        let server_end = run_end(path, 2, false);
        let share_end = run_end(path, server_end + 1, false);
        if server_end > 2 && server_end < path.len() && share_end > server_end + 1 {
            share_end
        } else {
            0
        }
    } else {
        0
    }
}

/// Whether a verbatim path names a server: it goes on with `UNC\`.
pub open spec fn names_server(path: Seq<char>) -> bool {
    path.len() >= 8 && path[4] == 'U' && path[5] == 'N' && path[6] == 'C' && is_separator(path[7])
}

/// How many characters name the volume of a verbatim path: a server with its share, if it has one, such
/// as `\\?\UNC\server\share`; a drive that stands alone, such as `\\?\C:`; or else the first component.
pub open spec fn verbatim_volume_len(path: Seq<char>) -> int {
    if names_server(path) {
        let server_end = run_end(path, 8, true);
        let share_end = run_end(path, server_end + 1, true);
        if share_end > server_end + 1 {
            share_end
        } else {
            server_end
        }
    } else if drive_at(path, 4) && (path.len() == 6 || is_separator(path[6])) {
        6
    } else {
        run_end(path, 4, true)
    }
}

/// How many characters name the volume.
pub open spec fn volume_len(path: Seq<char>) -> int {
    if is_verbatim(path) {
        verbatim_volume_len(path)
    } else {
        ordinary_volume_len(path)
    }
}

/// Where the components behind the volume start. Behind the volume of a verbatim path, a character that
/// separates elsewhere stands for the root.
pub open spec fn body_start(path: Seq<char>) -> int {
    let volume = volume_len(path);
    if is_verbatim(path) && volume < path.len() && is_separator(path[volume]) {
        volume + 1
    } else {
        volume
    }
}

/// The last component among the first `end` characters, where the components start at `start`:
/// separators at the end do not count, nor do components `.` in an ordinary path; a component `..`, or
/// `.` where it counts or stands first, is no name.
pub open spec fn last_name(path: Seq<char>, start: nat, end: nat, verbatim: bool) -> Option<Seq<char>>
    decreases end,
{
    if end <= start {
        None
    } else if separates(path[end - 1], verbatim) {
        last_name(path, start, (end - 1) as nat, verbatim)
    } else {
        let from: nat = if run_start(path, end as int, verbatim) < start {
            start
        } else {
            run_start(path, end as int, verbatim) as nat
        };
        let name = path.subrange(from as int, end as int);
        if name == seq!['.', '.'] {
            None
        } else if name == seq!['.'] {
            if verbatim || from == start || from >= end {
                None
            } else {
                last_name(path, start, from, verbatim)
            }
        } else {
            Some(name)
        }
    }
}

/// The file name of a path.
pub open spec fn file_name(path: Seq<char>) -> Option<Seq<char>> {
    last_name(path, body_start(path) as nat, path.len(), is_verbatim(path))
}

fn ordinary_separator(c: char) -> (r: bool)
    ensures
        r == is_separator(c),
{
    c == '\\' || c == '/'
}

fn separator(c: char, verbatim: bool) -> (r: bool)
    ensures
        r == separates(c, verbatim),
{
    c == '\\' || (c == '/' && !verbatim)
}

fn starts_verbatim(path: &[char]) -> (r: bool)
    ensures
        r == is_verbatim(path@),
{
    path.len() >= 4 && path[0] == '\\' && path[1] == '\\' && path[2] == '?' && path[3] == '\\'
}

fn has_drive_at(path: &[char], at: usize) -> (r: bool)
    requires
        at <= 4,
    ensures
        r == drive_at(path@, at as int),
{
    if path.len() < at + 2 {
        return false;
    }
    let letter: char = path[at];
    (('a' <= letter && letter <= 'z') || ('A' <= letter && letter <= 'Z')) && path[at + 1] == ':'
}

fn find_run_end(path: &[char], start: usize, verbatim: bool) -> (r: usize)
    requires
        start <= path.len(),
    ensures
        r == run_end(path@, start as int, verbatim),
        start <= r <= path.len(),
{
    let mut end: usize = start;
    while end < path.len() && !separator(path[end], verbatim)
        invariant
            start <= end <= path.len(),
            run_end(path@, start as int, verbatim) == run_end(path@, end as int, verbatim),
        decreases path.len() - end,
    {
        end = end + 1;
    }
    end
}

fn find_ordinary_volume_len(path: &[char]) -> (r: usize)
    ensures
        r == ordinary_volume_len(path@),
        r <= path.len(),
{
    if has_drive_at(path, 0) {
        return 2;
    }
    if path.len() >= 2 && ordinary_separator(path[0]) && ordinary_separator(path[1]) {
        let server_end: usize = find_run_end(path, 2, false);
        if server_end > 2 && server_end < path.len() {
            let share_end: usize = find_run_end(path, server_end + 1, false);
            if share_end > server_end + 1 {
                return share_end;
            }
        }
    }
    0
}

fn find_verbatim_volume_len(path: &[char]) -> (r: usize)
    requires
        is_verbatim(path@),
    ensures
        r == verbatim_volume_len(path@),
        r <= path.len(),
{
    if path.len() >= 8 && path[4] == 'U' && path[5] == 'N' && path[6] == 'C' && ordinary_separator(
        path[7],
    ) {
        let server_end: usize = find_run_end(path, 8, true);
        if server_end < path.len() {
            let share_end: usize = find_run_end(path, server_end + 1, true);
            if share_end > server_end + 1 {
                return share_end;
            }
        }
        server_end
    } else if has_drive_at(path, 4) && (path.len() == 6 || ordinary_separator(path[6])) {
        6
    } else {
        find_run_end(path, 4, true)
    }
}

fn find_body_start(path: &[char]) -> (r: usize)
    ensures
        r == body_start(path@),
        r <= path.len(),
{
    if starts_verbatim(path) {
        let volume: usize = find_verbatim_volume_len(path);
        if volume < path.len() && ordinary_separator(path[volume]) {
            volume + 1
        } else {
            volume
        }
    } else {
        find_ordinary_volume_len(path)
    }
}

/// The file name of a path.
pub fn process_name(path: &str) -> (r: Option<String>)
    ensures
        match r {
            Some(name) => file_name(path@) == Some(name@),
            None => file_name(path@) is None,
        },
{
    let chars: Vec<char> = chars_of(path);
    let verbatim: bool = starts_verbatim(&chars);
    let start: usize = find_body_start(&chars);
    let mut end: usize = chars.len();
    while end > start
        invariant
            start <= chars.len(),
            start <= end <= chars.len(),
            chars@ == path@,
            file_name(path@) == last_name(path@, start as nat, end as nat, verbatim),
        decreases end,
    {
        if separator(chars[end - 1], verbatim) {
            end = end - 1;
        } else {
            let mut from: usize = end;
            while from > start && !separator(chars[from - 1], verbatim)
                invariant
                    start <= from <= end <= chars.len(),
                    chars@ == path@,
                    run_start(path@, end as int, verbatim) == run_start(
                        path@,
                        from as int,
                        verbatim,
                    ),
                    from < end || !separates(path@[from - 1], verbatim),
                decreases from,
            {
                from = from - 1;
            }
            proof {
                lemma_run_start(path@, from as int, verbatim);
            }
            let ghost name = path@.subrange(from as int, end as int);
            if end - from == 2 && chars[from] == '.' && chars[from + 1] == '.' {
                proof {
                    assert(name =~= seq!['.', '.']);
                }
                return None;
            }
            if end - from == 1 && chars[from] == '.' {
                proof {
                    assert(name =~= seq!['.']);
                    assert(name != seq!['.', '.']) by {
                        assert(name.len() == 1);
                    }
                }
                if verbatim || from == start {
                    return None;
                }
                end = from;
            } else {
                proof {
                    if name == seq!['.', '.'] {
                        assert(name.len() == 2);
                        assert(name[0] == '.' && name[1] == '.');
                        assert(path@[from as int] == '.' && path@[from + 1] == '.');
                    }
                    if name == seq!['.'] {
                        assert(name.len() == 1);
                        assert(name[0] == '.');
                        assert(path@[from as int] == '.');
                    }
                    assert(file_name(path@) == Some(name));
                }
                return Some(text_of(&chars[from..end]));
            }
        }
    }
    None
}

proof fn lemma_run_start(path: Seq<char>, end: int, verbatim: bool)
    requires
        0 <= end <= path.len(),
    ensures
        0 <= run_start(path, end, verbatim) <= end,
    decreases end,
{
    if end > 0 && !separates(path[end - 1], verbatim) {
        lemma_run_start(path, end - 1, verbatim);
    }
}

} // verus!
