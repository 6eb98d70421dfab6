//! Which file paths may hold build declarations.
use vstd::prelude::*;
use crate::text::{chars_of, copy_chars, split_on, split_state, views_of};

verus! {

/// Directory conventionally holding build logic.
pub const BUILD_LOGIC_DIR: &'static str = "buildSrc";

/// Extension of markup files, which never declare build artifacts.
pub const MARKUP_EXTENSION: &'static str = "xml";

/// Extension of shrinker rules files, which never declare build artifacts.
pub const RULES_EXTENSION: &'static str = "pro";

/// The pieces of `s` that are not empty, in order.
pub open spec fn non_empty(s: Seq<Seq<char>>) -> Seq<Seq<char>>
    decreases s.len(),
{
    if s.len() == 0 {
        s
    } else if s.last().len() > 0 {
        non_empty(s.drop_last()).push(s.last())
    } else {
        non_empty(s.drop_last())
    }
}

/// The non-empty `/`-separated components of a relative path.
pub open spec fn path_components(path: Seq<char>) -> Seq<Seq<char>> {
    let (done, cur) = split_state(path, '/');
    non_empty(done.push(cur))
}

/// The index of the last `.` of `name`.
pub open spec fn last_dot(name: Seq<char>) -> Option<int>
    decreases name.len(),
{
    if name.len() == 0 {
        None
    } else if name.last() == '.' {
        Some(name.len() - 1)
    } else {
        last_dot(name.drop_last())
    }
}

/// What follows the last `.` of the file name, unless that `.` opens the name.
pub open spec fn extension(path: Seq<char>) -> Option<Seq<char>> {
    let comps = path_components(path);
    if comps.len() == 0 {
        None
    } else {
        let name = comps.last();
        match last_dot(name) {
            Some(d) => if d > 0 {
                Some(name.subrange(d + 1, name.len() as int))
            } else {
                None
            },
            None => None,
        }
    }
}

/// Build declarations are looked for only in files with an extension other than
/// markup or rules, at the top level, one directory down, or under the build
/// logic directory.
pub open spec fn may_declare_artifacts(path: Seq<char>) -> bool {
    let comps = path_components(path);
    &&& extension(path) matches Some(e) && e != MARKUP_EXTENSION@ && e != RULES_EXTENSION@
    &&& (comps.len() > 0 && comps[0] == BUILD_LOGIC_DIR@) || comps.len() <= 2
}

pub fn same_chars(a: &[char], b: &[char]) -> (r: bool)
    ensures
        r == (a@ == b@),
{
    if a.len() != b.len() {
        return false;
    }
    let mut i: usize = 0;
    while i < a.len()
        invariant
            a.len() == b.len(),
            i <= a.len(),
            forall|k: int| 0 <= k < i ==> a@[k] == b@[k],
        decreases a.len() - i,
    {
        if a[i] != b[i] {
            return false;
        }
        i = i + 1;
    }
    assert(a@ =~= b@);
    true
}

fn components(path: &[char]) -> (r: Vec<Vec<char>>)
    ensures
        views_of(r@) == path_components(path@),
{
    let (done, cur) = split_on(path, '/');
    let ghost all = views_of(done@).push(cur@);
    let mut comps: Vec<Vec<char>> = Vec::new();
    let mut i: usize = 0;
    while i < done.len()
        invariant
            i <= done.len(),
            all == views_of(done@).push(cur@),
            views_of(comps@) == non_empty(all.subrange(0, i as int)),
        decreases done.len() - i,
    {
        assert(all.subrange(0, i + 1).drop_last() =~= all.subrange(0, i as int));
        assert(all.subrange(0, i + 1).last() == done@[i as int]@);
        if done[i].len() > 0 {
            let c = copy_chars(done[i].as_slice());
            let ghost before = views_of(comps@);
            comps.push(c);
            assert(views_of(comps@) =~= before.push(c@));
        }
        i = i + 1;
    }
    assert(all.drop_last() =~= all.subrange(0, i as int));
    assert(all.last() == cur@);
    if cur.len() > 0 {
        let ghost before = views_of(comps@);
        comps.push(cur);
        assert(views_of(comps@) =~= before.push(cur@));
    }
    comps
}

fn find_last_dot(name: &[char]) -> (r: Option<usize>)
    ensures
        r matches Some(d) ==> last_dot(name@) == Some(d as int) && d < name.len(),
        r is None ==> last_dot(name@) is None,
{
    let mut n: usize = name.len();
    assert(name@.subrange(0, n as int) =~= name@);
    while n > 0
        invariant
            n <= name.len(),
            last_dot(name@) == last_dot(name@.subrange(0, n as int)),
        decreases n,
    {
        assert(name@.subrange(0, n as int).drop_last() =~= name@.subrange(0, n - 1));
        if name[n - 1] == '.' {
            return Some(n - 1);
        }
        n = n - 1;
    }
    None
}

/// Whether the file at `path` is one where build artifact coordinates are looked for.
pub fn check_artifacts(path: &str) -> (r: bool)
    ensures
        r == may_declare_artifacts(path@),
{
    let chars = chars_of(path);
    let comps = components(chars.as_slice());
    let n = comps.len();
    if n == 0 {
        return false;
    }
    let name = &comps[n - 1];
    assert(path_components(path@).last() == name@);
    let dot = match find_last_dot(name.as_slice()) {
        Some(d) => d,
        None => return false,
    };
    if dot == 0 {
        return false;
    }
    let ext = slice_from(name.as_slice(), dot + 1);
    let markup = chars_of(MARKUP_EXTENSION);
    let rules = chars_of(RULES_EXTENSION);
    if same_chars(ext.as_slice(), markup.as_slice()) || same_chars(ext.as_slice(), rules.as_slice()) {
        return false;
    }
    let build_dir = chars_of(BUILD_LOGIC_DIR);
    assert(path_components(path@)[0] == comps@[0]@);
    same_chars(comps[0].as_slice(), build_dir.as_slice()) || n <= 2
}

fn slice_from(s: &[char], start: usize) -> (r: Vec<char>)
    requires
        start <= s.len(),
    ensures
        r@ == s@.subrange(start as int, s@.len() as int),
{
    let mut r: Vec<char> = Vec::new();
    let mut i: usize = start;
    while i < s.len()
        invariant
            start <= i <= s.len(),
            r@ == s@.subrange(start as int, i as int),
        decreases s.len() - i,
    {
        r.push(s[i]);
        i = i + 1;
    }
    r
}

} // verus!
