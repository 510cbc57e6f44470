//! File names and extensions of Unix paths, as `std::path::Path` reads them.
use crate::text::chars_of;
use vstd::prelude::*;

verus! {

/// The index of the last `c` in `s`, or -1 where there is none.
pub open spec fn last_index(s: Seq<char>, c: char) -> int
    decreases s.len(),
{
    if s.len() == 0 {
        -1
    } else if s.last() == c {
        s.len() - 1
    } else {
        last_index(s.drop_last(), c)
    }
}

/// `last_index` lies in `-1 .. s.len()`.
pub proof fn lemma_last_index_bounds(s: Seq<char>, c: char)
    ensures
        -1 <= last_index(s, c) < s.len(),
        last_index(s, c) >= 0 ==> s[last_index(s, c)] == c,
    decreases s.len(),
{
    if s.len() > 0 && s.last() != c {
        lemma_last_index_bounds(s.drop_last(), c);
    }
}

/// Where `s[j..]` holds no `c` and `s[j - 1]` is `c` (or `j` is 0), the last `c` is at
/// `j - 1`.
proof fn lemma_last_index_at(s: Seq<char>, c: char, j: int)
    requires
        0 <= j <= s.len(),
        forall|k: int| j <= k < s.len() ==> s[k] != c,
        j == 0 || s[j - 1] == c,
    ensures
        last_index(s, c) == j - 1,
    decreases s.len(),
{
    if s.len() > j {
        assert(s.last() != c);
        lemma_last_index_at(s.drop_last(), c, j);
    }
}

/// The last component of a path, where it is a name: components are separated by
/// `/`, empty ones and `.` are skipped, and a last component `..` (or none at all)
/// has no name. `Path::file_name` on Unix.
pub open spec fn file_name(p: Seq<char>) -> Option<Seq<char>>
    decreases p.len(),
{
    let i = last_index(p, '/');
    let segment = p.subrange(i + 1, p.len() as int);
    if segment == seq!['.', '.'] {
        None
    } else if segment.len() == 0 || segment == seq!['.'] {
        if i < 0 {
            None
        } else {
            proof {
                lemma_last_index_bounds(p, '/');
            }
            file_name(p.subrange(0, i))
        }
    } else {
        Some(segment)
    }
}

/// The text after the last `.` of a file name, where that `.` is not its first
/// character. `Path::extension` on a file name.
pub open spec fn name_extension(name: Seq<char>) -> Option<Seq<char>> {
    let i = last_index(name, '.');
    if i <= 0 {
        None
    } else {
        Some(name.subrange(i + 1, name.len() as int))
    }
}

/// The extension of a path's file name (`Path::extension` on Unix).
pub open spec fn path_extension(p: Seq<char>) -> Option<Seq<char>> {
    match file_name(p) {
        Some(n) => name_extension(n),
        None => None,
    }
}

/// The range of `cs` that is its last component, where that component is a name.
fn file_name_range(cs: &Vec<char>) -> (r: Option<(usize, usize)>)
    ensures
        match r {
            Some((a, b)) => a <= b <= cs@.len() && file_name(cs@) == Some(cs@.subrange(a as int, b as int)),
            None => file_name(cs@) is None,
        },
{
    let mut end = cs.len();
    assert(cs@.subrange(0, end as int) =~= cs@);
    loop
        invariant
            end <= cs@.len(),
            file_name(cs@) == file_name(cs@.subrange(0, end as int)),
        decreases end,
    {
        let ghost prefix = cs@.subrange(0, end as int);
        let mut j = end;
        while j > 0 && cs[j - 1] != '/'
            invariant
                j <= end <= cs@.len(),
                forall|k: int| j <= k < end ==> cs@[k] != '/',
            decreases j,
        {
            j -= 1;
        }
        proof {
            lemma_last_index_at(prefix, '/', j as int);
            assert(prefix.subrange(j as int, end as int) =~= cs@.subrange(j as int, end as int));
        }
        let len = end - j;
        if len == 2 && cs[j] == '.' && cs[j + 1] == '.' {
            assert(cs@.subrange(j as int, end as int) =~= seq!['.', '.']);
            return None;
        }
        if len == 0 || (len == 1 && cs[j] == '.') {
            assert(len == 1 ==> cs@.subrange(j as int, end as int) =~= seq!['.']);
            if j == 0 {
                return None;
            }
            assert(prefix.subrange(0, j - 1) =~= cs@.subrange(0, j - 1));
            end = j - 1;
            continue ;
        }
        assert(cs@.subrange(j as int, end as int) != seq!['.', '.']) by {
            if len == 2 {
                assert(cs@.subrange(j as int, end as int)[0] == cs@[j as int]);
                assert(cs@.subrange(j as int, end as int)[1] == cs@[j + 1]);
            }
        }
        assert(cs@.subrange(j as int, end as int) != seq!['.']) by {
            if len == 1 {
                assert(cs@.subrange(j as int, end as int)[0] == cs@[j as int]);
            }
        }
        return Some((j, end));
    }
}

/// The range of `cs[a..b]` after its last `.`, where that `.` is not at `a`.
fn extension_range(cs: &Vec<char>, a: usize, b: usize) -> (r: Option<usize>)
    requires
        a <= b <= cs@.len(),
    ensures
        match r {
            Some(k) => a <= k <= b && name_extension(cs@.subrange(a as int, b as int)) == Some(
                cs@.subrange(k as int, b as int),
            ),
            None => name_extension(cs@.subrange(a as int, b as int)) is None,
        },
{
    let ghost name = cs@.subrange(a as int, b as int);
    let mut k = b;
    while k > a && cs[k - 1] != '.'
        invariant
            a <= k <= b <= cs@.len(),
            forall|i: int| k <= i < b ==> cs@[i] != '.',
        decreases k,
    {
        k -= 1;
    }
    proof {
        lemma_last_index_at(name, '.', k - a);
    }
    if k - a <= 1 {
        None
    } else {
        assert(name.subrange(k - a, name.len() as int) =~= cs@.subrange(k as int, b as int));
        Some(k)
    }
}

/// The file name of a path (`Path::file_name`), where it has one.
pub fn path_file_name(path: &str) -> (r: Option<String>)
    ensures
        match r {
            Some(s) => file_name(path@) == Some(s@),
            None => file_name(path@) is None,
        },
{
    let cs = chars_of(path);
    match file_name_range(&cs) {
        Some((a, b)) => Some(String::from_str(path.substring_char(a, b))),
        None => None,
    }
}

/// The extension of a path's file name (`Path::extension`), where it has one.
pub fn path_extension_of(path: &str) -> (r: Option<String>)
    ensures
        match r {
            Some(s) => path_extension(path@) == Some(s@),
            None => path_extension(path@) is None,
        },
{
    let cs = chars_of(path);
    match file_name_range(&cs) {
        Some((a, b)) => match extension_range(&cs, a, b) {
            Some(k) => Some(String::from_str(path.substring_char(k, b))),
            None => None,
        },
        None => None,
    }
}

} // verus!
