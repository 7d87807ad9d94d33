//! The file name and the file stem of a path, on its characters alone. A
//! path is divided by `/` or `\`.

use crate::field::slice_of;
use vstd::prelude::*;

verus! {

/// Whether `c` divides the components of a path.
pub open spec fn is_separator(c: char) -> bool {
    c == '/' || c == '\\'
}

/// The position of the last separator in `path`, or -1.
pub open spec fn last_separator(path: Seq<char>) -> int
    decreases path.len(),
{
    if path.len() == 0 {
        -1
    } else if is_separator(path.last()) {
        path.len() - 1
    } else {
        last_separator(path.drop_last())
    }
}

/// The position of the last `.` in `name`, or -1.
pub open spec fn last_dot(name: Seq<char>) -> int
    decreases name.len(),
{
    if name.len() == 0 {
        -1
    } else if name.last() == '.' {
        name.len() - 1
    } else {
        last_dot(name.drop_last())
    }
}

/// What follows the last separator of `path`; the whole of `path` where it
/// has none.
pub open spec fn file_name(path: Seq<char>) -> Seq<char> {
    path.skip(last_separator(path) + 1)
}

/// Whether `path` names a file: its file name is not empty and is neither
/// `.` nor `..`.
pub open spec fn names_file(path: Seq<char>) -> bool {
    let name = file_name(path);
    name.len() > 0 && name != seq!['.'] && name != seq!['.', '.']
}

/// The file name of `path` without its extension: the part before the last
/// `.`, unless that `.` is the first character of the name.
pub open spec fn file_stem(path: Seq<char>) -> Seq<char> {
    let name = file_name(path);
    let dot = last_dot(name);
    if dot > 0 {
        name.take(dot)
    } else {
        name
    }
}

/// The extension of the file name of `path`: what follows its last `.`,
/// unless that `.` is the first character of the name. `None` where the
/// name has no extension.
pub open spec fn extension(path: Seq<char>) -> Option<Seq<char>> {
    let name = file_name(path);
    let dot = last_dot(name);
    if dot > 0 {
        Some(name.skip(dot + 1))
    } else {
        None
    }
}

/// Where the file name of `path` begins.
fn file_name_start(path: &Vec<char>) -> (start: usize)
    ensures
        start == last_separator(path@) + 1,
        start <= path.len(),
{
    let mut n: usize = path.len();
    assert(path@.take(n as int) =~= path@);
    while n > 0
        invariant
            n <= path.len(),
            last_separator(path@) == last_separator(path@.take(n as int)),
        decreases n,
    {
        let c = path[n - 1];
        if c == '/' || c == '\\' {
            return n;
        }
        assert(path@.take(n as int).drop_last() =~= path@.take(n - 1));
        n -= 1;
    }
    0
}

/// Executable [`file_name`].
pub(crate) fn file_name_of(path: &Vec<char>) -> (name: Vec<char>)
    ensures
        name@ == file_name(path@),
{
    let start = file_name_start(path);
    slice_of(path, start, path.len())
}

/// Executable [`names_file`].
pub fn path_names_file(path: &Vec<char>) -> (b: bool)
    ensures
        b == names_file(path@),
{
    let name = file_name_of(path);
    if name.len() == 0 {
        false
    } else if name.len() == 1 {
        assert(name@ == seq!['.'] <==> name@[0] == '.') by {
            if name@[0] == '.' {
                assert(name@ =~= seq!['.']);
            }
        }
        name[0] != '.'
    } else if name.len() == 2 {
        assert(name@ == seq!['.', '.'] <==> name@[0] == '.' && name@[1] == '.') by {
            if name@[0] == '.' && name@[1] == '.' {
                assert(name@ =~= seq!['.', '.']);
            }
        }
        !(name[0] == '.' && name[1] == '.')
    } else {
        true
    }
}

/// Executable [`file_stem`].
pub fn file_stem_of(path: &Vec<char>) -> (stem: Vec<char>)
    ensures
        stem@ == file_stem(path@),
{
    let name = file_name_of(path);
    let mut n: usize = name.len();
    assert(name@.take(n as int) =~= name@);
    while n > 0
        invariant
            n <= name.len(),
            name@ == file_name(path@),
            last_dot(name@) == last_dot(name@.take(n as int)),
        decreases n,
    {
        if name[n - 1] == '.' {
            if n - 1 > 0 {
                return slice_of(&name, 0, n - 1);
            } else {
                return name;
            }
        }
        assert(name@.take(n as int).drop_last() =~= name@.take(n - 1));
        n -= 1;
    }
    name
}

/// Executable [`extension`].
pub(crate) fn extension_of(path: &Vec<char>) -> (r: Option<Vec<char>>)
    ensures
        match r {
            Some(e) => extension(path@) == Some(e@),
            None => extension(path@) is None,
        },
{
    let name = file_name_of(path);
    let mut n: usize = name.len();
    assert(name@.take(n as int) =~= name@);
    while n > 0
        invariant
            n <= name.len(),
            name@ == file_name(path@),
            last_dot(name@) == last_dot(name@.take(n as int)),
        decreases n,
    {
        if name[n - 1] == '.' {
            if n - 1 > 0 {
                let e = slice_of(&name, n, name.len());
                return Some(e);
            } else {
                return None;
            }
        }
        assert(name@.take(n as int).drop_last() =~= name@.take(n - 1));
        n -= 1;
    }
    None
}

} // verus!
