//! File extensions of `/`-separated paths.

use vstd::prelude::*;
use vstd::string::*;

verus! {

/// Index of the last `c` in `s`, or -1.
pub open spec fn last_index_of(s: Seq<char>, c: char) -> int
    decreases s.len(),
{
    if s.len() == 0 {
        -1
    } else if s.last() == c {
        s.len() - 1
    } else {
        last_index_of(s.drop_last(), c)
    }
}

/// True when `p` ends with a separator or with a `.` component.
pub open spec fn ends_trimmable(p: Seq<char>) -> bool {
    p.len() > 0 && (p.last() == '/' || (p.len() >= 2 && p.last() == '.' && p[p.len() - 2] == '/'))
}

/// `p` without its trailing separators and `.` components.
pub open spec fn trimmed(p: Seq<char>) -> Seq<char>
    decreases p.len(),
{
    if ends_trimmable(p) {
        trimmed(p.drop_last())
    } else {
        p
    }
}

/// The last component of a path, unless it is empty, `.` or `..`.
pub open spec fn file_name_of(p: Seq<char>) -> Option<Seq<char>> {
    let t = trimmed(p);
    let name = t.skip(last_index_of(t, '/') + 1);
    if name.len() == 0 || name == seq!['.'] || name == seq!['.', '.'] {
        None
    } else {
        Some(name)
    }
}

/// What follows the last `.` of the file name, when that `.` is not its
/// first character.
pub open spec fn extension_of(p: Seq<char>) -> Option<Seq<char>> {
    match file_name_of(p) {
        None => None,
        Some(name) => {
            let d = last_index_of(name, '.');
            if d <= 0 {
                None
            } else {
                Some(name.skip(d + 1))
            }
        },
    }
}


/// Position of the last `c` in `s` before `end`, searching backward.
fn last_char_before(s: &str, start: usize, end: usize, c: char) -> (r: Option<usize>)
    requires
        start <= end <= s@.len(),
    ensures
        match r {
            Some(k) => start <= k < end && last_index_of(s@.subrange(start as int, end as int), c)
                == k - start,
            None => last_index_of(s@.subrange(start as int, end as int), c) == -1,
        },
{
    let mut i = end;
    while i > start
        invariant
            start <= i <= end <= s@.len(),
            last_index_of(s@.subrange(start as int, end as int), c) == last_index_of(
                s@.subrange(start as int, i as int),
                c,
            ),
        decreases i,
    {
        assert(s@.subrange(start as int, i as int).drop_last() =~= s@.subrange(
            start as int,
            i - 1,
        ));
        if s.get_char(i - 1) == c {
            return Some(i - 1);
        }
        i -= 1;
    }
    None
}

/// The extension of the file a `/`-separated path names: `Some("txt")` for
/// `dir/test.txt`, `None` for `test`, `.bashrc` or `..`.
pub fn get_extension(path: &str) -> (r: Option<&str>)
    ensures
        match r {
            Some(e) => extension_of(path@) == Some(e@),
            None => extension_of(path@) is None,
        },
{
    let n = path.unicode_len();
    let mut end = n;
    assert(path@.subrange(0, n as int) =~= path@);
    while end > 0 && (path.get_char(end - 1) == '/' || (end >= 2 && path.get_char(end - 1) == '.'
        && path.get_char(end - 2) == '/'))
        invariant
            end <= n == path@.len(),
            trimmed(path@) == trimmed(path@.subrange(0, end as int)),
        decreases end,
    {
        assert(path@.subrange(0, end as int).drop_last() =~= path@.subrange(0, end - 1));
        end -= 1;
    }
    let ghost t = path@.subrange(0, end as int);
    assert(!ends_trimmable(t));
    assert(trimmed(path@) == t);
    let start = match last_char_before(path, 0, end, '/') {
        Some(k) => k + 1,
        None => 0,
    };
    let ghost name = t.skip(last_index_of(t, '/') + 1);
    assert(name =~= path@.subrange(start as int, end as int));
    if start == end || (end - start == 1 && path.get_char(start) == '.') || (end - start == 2
        && path.get_char(start) == '.' && path.get_char(start + 1) == '.') {
        assert(name.len() == 0 || name =~= seq!['.'] || name =~= seq!['.', '.']);
        return None;
    }
    assert(!(name =~= seq!['.'])) by {
        if name.len() == 1 {
            assert(name[0] == path@[start as int]);
        }
    }
    assert(!(name =~= seq!['.', '.'])) by {
        if name.len() == 2 {
            assert(name[0] == path@[start as int] && name[1] == path@[start + 1]);
        }
    }
    match last_char_before(path, start, end, '.') {
        Some(d) => {
            if d == start {
                None
            } else {
                let e = path.substring_char(d + 1, end);
                assert(e@ =~= name.skip(d - start + 1));
                Some(e)
            }
        },
        None => None,
    }
}

} // verus!
