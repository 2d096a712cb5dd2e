//! File paths as text: the last component, its extension, and joining.
//!
//! Components are parted by `/`, and separators at the end of a path are
//! passed over. The rules here are those that the session
//! model and the job planning go by; nothing is read from a file system.

use crate::text::chars_of;
use vstd::prelude::*;
use vstd::string::*;

verus! {

/// The last position where `s` holds `c`, or `-1` where it holds none.
pub open spec fn find_last(s: Seq<char>, c: char) -> int
    decreases s.len(),
{
    if s.len() == 0 {
        -1
    } else if s.last() == c {
        s.len() - 1
    } else {
        find_last(s.drop_last(), c)
    }
}

/// `path` without the separators that it ends in.
pub open spec fn trim_separators(path: Seq<char>) -> Seq<char>
    decreases path.len(),
{
    if path.len() > 0 && path.last() == '/' {
        trim_separators(path.drop_last())
    } else {
        path
    }
}

/// The last component of `path`, the separators that it ends in apart: what
/// follows the last `/` before them, or all that stands before them where
/// there is none.
pub open spec fn last_component(path: Seq<char>) -> Seq<char> {
    let trimmed = trim_separators(path);
    trimmed.subrange(find_last(trimmed, '/') + 1, trimmed.len() as int)
}

/// The name of the file or directory that `path` ends in. A path whose last
/// component is empty, `.` or `..` names none.
pub open spec fn file_name_spec(path: Seq<char>) -> Option<Seq<char>> {
    let name = last_component(path);
    if name.len() == 0 || name == seq!['.'] || name == seq!['.', '.'] {
        None
    } else {
        Some(name)
    }
}

/// The extension of the file that `path` ends in: what follows the last full
/// stop of its name. A name with no full stop, or with its only one in front,
/// has none.
pub open spec fn extension_spec(path: Seq<char>) -> Option<Seq<char>> {
    match file_name_spec(path) {
        None => None,
        Some(name) => {
            let dot = find_last(name, '.');
            if dot <= 0 {
                None
            } else {
                Some(name.subrange(dot + 1, name.len() as int))
            }
        },
    }
}

/// The path of `name` inside the directory `dir`.
pub open spec fn join_spec(dir: Seq<char>, name: Seq<char>) -> Seq<char> {
    if dir.len() == 0 {
        name
    } else if dir.last() == '/' {
        dir + name
    } else {
        dir + seq!['/'] + name
    }
}

/// A position that holds `c`, or `-1`, with no `c` behind it, is what
/// `find_last` gives.
pub proof fn lemma_find_last_at(s: Seq<char>, c: char, pos: int)
    requires
        -1 <= pos < s.len(),
        pos >= 0 ==> s[pos] == c,
        forall|i: int| pos < i < s.len() ==> s[i] != c,
    ensures
        find_last(s, c) == pos,
    decreases s.len(),
{
    if s.len() > 0 && pos < s.len() - 1 {
        lemma_find_last_at(s.drop_last(), c, pos);
    }
}

/// The last position from `start` up to `end` where `chars` holds `c`, where
/// there is one.
fn find_last_char(chars: &Vec<char>, c: char, start: usize, end: usize) -> (found: Option<usize>)
    requires
        start <= end <= chars.len(),
    ensures
        match found {
            Some(pos) => start <= pos < end && find_last(
                chars@.subrange(start as int, end as int),
                c,
            ) == pos - start,
            None => find_last(chars@.subrange(start as int, end as int), c) == -1,
        },
{
    let ghost field = chars@.subrange(start as int, end as int);
    let mut pos: usize = end;
    while pos > start
        invariant
            start <= pos <= end <= chars.len(),
            field == chars@.subrange(start as int, end as int),
            forall|i: int| pos <= i < end ==> chars[i] != c,
        decreases pos,
    {
        pos = pos - 1;
        if chars[pos] == c {
            proof {
                lemma_find_last_at(field, c, pos - start);
            }
            return Some(pos);
        }
    }
    proof {
        lemma_find_last_at(field, c, -1);
    }
    None
}

/// The name of the file or directory that `path` ends in.
pub fn file_name(path: &str) -> (name: Option<String>)
    ensures
        match name {
            Some(n) => file_name_spec(path@) == Some(n@),
            None => file_name_spec(path@) is None,
        },
{
    let chars = chars_of(path);
    let mut end = chars.len();
    assert(chars@.subrange(0, end as int) =~= chars@);
    while end > 0 && chars[end - 1] == '/'
        invariant
            end <= chars.len(),
            trim_separators(chars@) == trim_separators(chars@.subrange(0, end as int)),
        decreases end,
    {
        assert(chars@.subrange(0, end as int).drop_last() =~= chars@.subrange(0, end - 1));
        end = end - 1;
    }
    let start = match find_last_char(&chars, '/', 0, end) {
        Some(pos) => pos + 1,
        None => 0,
    };
    let ghost name = last_component(path@);
    assert(name == chars@.subrange(start as int, end as int));
    if end == start {
        return None;
    }
    if end - start == 1 && chars[start] == '.' {
        assert(name =~= seq!['.']);
        return None;
    }
    if end - start == 2 && chars[start] == '.' && chars[start + 1] == '.' {
        assert(name =~= seq!['.', '.']);
        return None;
    }
    assert(name != seq!['.']) by {
        if name == seq!['.'] {
            assert(name.len() == 1 && name[0] == '.');
        }
    }
    assert(name != seq!['.', '.']) by {
        if name == seq!['.', '.'] {
            assert(name.len() == 2 && name[0] == '.' && name[1] == '.');
        }
    }
    Some(path.substring_char(start, end).to_owned())
}

/// The extension of the file that `path` ends in.
pub fn extension(path: &str) -> (ext: Option<String>)
    ensures
        match ext {
            Some(e) => extension_spec(path@) == Some(e@),
            None => extension_spec(path@) is None,
        },
{
    match file_name(path) {
        None => None,
        Some(name) => {
            let chars = chars_of(name.as_str());
            let end = chars.len();
            assert(chars@.subrange(0, end as int) =~= chars@);
            match find_last_char(&chars, '.', 0, end) {
                None => None,
                Some(dot) => {
                    if dot == 0 {
                        None
                    } else {
                        Some(name.as_str().substring_char(dot + 1, end).to_owned())
                    }
                },
            }
        },
    }
}

/// The path of `name` inside the directory `dir`.
pub fn join(dir: &str, name: &str) -> (path: String)
    ensures
        path@ == join_spec(dir@, name@),
{
    let chars = chars_of(dir);
    let mut path = dir.to_owned();
    if chars.len() == 0 {
        assert(path@ + name@ =~= name@);
    } else if chars[chars.len() - 1] != '/' {
        proof {
            reveal_strlit("/");
        }
        path.append("/");
        assert("/"@ =~= seq!['/']);
    }
    path.append(name);
    path
}

} // verus!
