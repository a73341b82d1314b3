//! The last component of a path and its extension.

use vstd::prelude::*;
use vstd::string::*;
use crate::text::{chars_of, string_of};

verus! {

/// The view of an optional string.
pub open spec fn owned_view(text: Option<String>) -> Option<Seq<char>> {
    match text {
        Some(t) => Some(t@),
        None => None,
    }
}

/// Where the text behind the last `mark` starts; zero without one.
pub open spec fn behind_last(text: Seq<char>, mark: char) -> int
    decreases text.len(),
{
    if text.len() == 0 {
        0
    } else if text.last() == mark {
        text.len() as int
    } else {
        behind_last(text.drop_last(), mark)
    }
}

/// The name of what a path leads to. Slashes at the end and components that are
/// a single dot do not count; the root and a parent directory have no name.
pub open spec fn path_file_name(path: Seq<char>) -> Option<Seq<char>>
    decreases path.len(),
{
    proof {
        behind_last_lies_inside(path, '/');
    }
    let start = behind_last(path, '/');
    let part = path.skip(start);
    if part.len() == 0 || part == seq!['.'] {
        if start == 0 {
            None
        } else {
            path_file_name(path.take(start - 1))
        }
    } else if part == seq!['.', '.'] {
        None
    } else {
        Some(part)
    }
}

/// The extension of the name of a path: the text behind the last dot, unless
/// that dot leads the name.
pub open spec fn path_extension(path: Seq<char>) -> Option<Seq<char>> {
    match path_file_name(path) {
        Some(name) => if behind_last(name, '.') <= 1 {
            None
        } else {
            Some(name.skip(behind_last(name, '.')))
        },
        None => None,
    }
}

/// What lies behind the last mark starts inside the text, right behind a mark.
pub proof fn behind_last_lies_inside(text: Seq<char>, mark: char)
    ensures
        0 <= behind_last(text, mark) <= text.len(),
        behind_last(text, mark) > 0 ==> text[behind_last(text, mark) - 1] == mark,
    decreases text.len(),
{
    if text.len() > 0 && text.last() != mark {
        behind_last_lies_inside(text.drop_last(), mark);
    }
}

fn find_last(cs: &Vec<char>, end: usize, mark: char) -> (result: usize)
    requires
        end <= cs@.len(),
    ensures
        result == behind_last(cs@.take(end as int), mark),
        result <= end,
{
    let mut i: usize = end;
    while i > 0
        invariant
            i <= end <= cs@.len(),
            behind_last(cs@.take(end as int), mark) == behind_last(cs@.take(i as int), mark),
        decreases i,
    {
        if cs[i - 1] == mark {
            return i;
        }
        assert(cs@.take(i as int).drop_last() =~= cs@.take(i - 1));
        i = i - 1;
    }
    0
}

/// Finds the name of what a path leads to: where it starts and ends.
fn find_name(cs: &Vec<char>) -> (result: Option<(usize, usize)>)
    ensures
        match result {
            Some((start, end)) => {
                &&& start <= end <= cs@.len()
                &&& path_file_name(cs@) == Some(cs@.subrange(start as int, end as int))
            },
            None => path_file_name(cs@) is None,
        },
{
    let mut end: usize = cs.len();
    assert(cs@.take(end as int) =~= cs@);
    loop
        invariant
            end <= cs@.len(),
            path_file_name(cs@) == path_file_name(cs@.take(end as int)),
        decreases end,
    {
        let start = find_last(cs, end, '/');
        let ghost path = cs@.take(end as int);
        let ghost part = path.skip(start as int);
        assert(part =~= cs@.subrange(start as int, end as int));
        let length: usize = end - start;
        let nothing = length == 0 || (length == 1 && cs[start] == '.');
        proof {
            behind_last_lies_inside(path, '/');
            if length == 1 && cs@[start as int] == '.' {
                assert(part =~= seq!['.']);
            }
            if part == seq!['.'] {
                assert(part[0] == '.');
            }
        }
        if nothing {
            if start == 0 {
                return None;
            }
            assert(path.take(start - 1) =~= cs@.take(start - 1));
            end = start - 1;
        } else {
            let parent = length == 2 && cs[start] == '.' && cs[start + 1] == '.';
            proof {
                if parent {
                    assert(part =~= seq!['.', '.']);
                }
                if part == seq!['.', '.'] {
                    assert(part[0] == '.' && part[1] == '.');
                }
            }
            if parent {
                return None;
            }
            return Some((start, end));
        }
    }
}

/// The name of what a path leads to.
pub fn file_name(path: &str) -> (result: Option<String>)
    ensures
        owned_view(result) == path_file_name(path@),
{
    let cs = chars_of(path);
    match find_name(&cs) {
        Some((start, end)) => Some(string_of(&cs, start, end)),
        None => None,
    }
}

/// The extension of the name of a path.
pub fn extension(path: &str) -> (result: Option<String>)
    ensures
        owned_view(result) == path_extension(path@),
{
    let name = match file_name(path) {
        Some(name) => name,
        None => return None,
    };
    let cs = chars_of(name.as_str());
    let length: usize = cs.len();
    let start = find_last(&cs, length, '.');
    assert(cs@.take(length as int) =~= cs@);
    if start <= 1 {
        None
    } else {
        assert(cs@.subrange(start as int, length as int) =~= cs@.skip(start as int));
        Some(string_of(&cs, start, length))
    }
}

/// A name holds no slash and is neither empty nor a dot or two.
pub proof fn names_are_single_components(path: Seq<char>)
    ensures
        path_file_name(path) matches Some(name) ==> {
            &&& name.len() > 0
            &&& !name.contains('/')
            &&& name != seq!['.']
            &&& name != seq!['.', '.']
        },
    decreases path.len(),
{
    let start = behind_last(path, '/');
    behind_last_lies_inside(path, '/');
    nothing_behind_last(path, '/');
    if start > 0 {
        names_are_single_components(path.take(start - 1));
    }
}

proof fn nothing_behind_last(text: Seq<char>, mark: char)
    ensures
        !text.skip(behind_last(text, mark)).contains(mark),
    decreases text.len(),
{
    behind_last_lies_inside(text, mark);
    let start = behind_last(text, mark);
    let rest = text.skip(start);
    if text.len() > 0 && text.last() != mark {
        let front = text.drop_last();
        nothing_behind_last(front, mark);
        behind_last_lies_inside(front, mark);
        if rest.contains(mark) {
            let k = choose|k: int| 0 <= k < rest.len() && rest[k] == mark;
            assert(k < rest.len() - 1);
            assert(front.skip(start)[k] == mark);
        }
    }
}

} // verus!
