//! Conversions between strings and character sequences.
use vstd::prelude::*;

verus! {

/// The characters of `s`, in order.
pub fn chars_of(s: &str) -> (r: Vec<char>)
    ensures
        r@ == s@,
{
    let mut r: Vec<char> = Vec::new();
    for c in it: s.chars()
        invariant
            it.seq() == s@,
            r@ == it.seq().take(it.index() as int),
    {
        r.push(c);
    }
    r
}

/// Relies on `String`'s `FromIterator<&char>`: the string of exactly these characters, in order.
#[verifier::external_body]
pub(crate) fn string_of(v: &[char]) -> (r: String)
    ensures
        r@ == v@,
{
    v.iter().collect()
}

/// Splitting `s` at every `sep`: the pieces that a separator closed, and the
/// piece after the last separator.
pub open spec fn split_state(s: Seq<char>, sep: char) -> (Seq<Seq<char>>, Seq<char>)
    decreases s.len(),
{
    if s.len() == 0 {
        (Seq::empty(), Seq::empty())
    } else {
        let (done, cur) = split_state(s.drop_last(), sep);
        if s.last() == sep {
            (done.push(cur), Seq::empty())
        } else {
            (done, cur.push(s.last()))
        }
    }
}

/// A line without the `\r` of a `\r\n` ending.
pub open spec fn strip_cr(line: Seq<char>) -> Seq<char> {
    if line.len() > 0 && line.last() == '\r' {
        line.drop_last()
    } else {
        line
    }
}

/// The lines of a text: split at `\n`, a `\r` before the `\n` dropped, and
/// no empty line after a final `\n`.
pub open spec fn lines_of(text: Seq<char>) -> Seq<Seq<char>> {
    let (done, cur) = split_state(text, '\n');
    let closed = done.map_values(|l: Seq<char>| strip_cr(l));
    if cur.len() > 0 {
        closed.push(cur)
    } else {
        closed
    }
}

/// The ending of a line that a `\n` closed: `\r\n` or `\n`.
pub open spec fn ending_of(piece: Seq<char>) -> Seq<char> {
    if piece.len() > 0 && piece.last() == '\r' {
        seq!['\r', '\n']
    } else {
        seq!['\n']
    }
}

/// The ending of each line of [`lines_of`]: `\r\n`, `\n`, or nothing for a
/// last line that has none.
pub open spec fn endings_of(text: Seq<char>) -> Seq<Seq<char>> {
    let (done, cur) = split_state(text, '\n');
    let closed = done.map_values(|l: Seq<char>| ending_of(l));
    if cur.len() > 0 {
        closed.push(Seq::empty())
    } else {
        closed
    }
}

pub open spec fn views_of(v: Seq<Vec<char>>) -> Seq<Seq<char>> {
    v.map_values(|l: Vec<char>| l@)
}

/// Splits `s` at every `sep`, as [`split_state`] describes.
pub fn split_on(s: &[char], sep: char) -> (r: (Vec<Vec<char>>, Vec<char>))
    ensures
        (views_of(r.0@), r.1@) == split_state(s@, sep),
{
    let mut done: Vec<Vec<char>> = Vec::new();
    let mut cur: Vec<char> = Vec::new();
    let mut i: usize = 0;
    while i < s.len()
        invariant
            i <= s.len(),
            (views_of(done@), cur@) == split_state(s@.subrange(0, i as int), sep),
        decreases s.len() - i,
    {
        let ghost prev = s@.subrange(0, i as int);
        assert(s@.subrange(0, i + 1).drop_last() =~= prev);
        if s[i] == sep {
            let piece = cur;
            done.push(piece);
            cur = Vec::new();
            assert(views_of(done@) =~= views_of(done@.drop_last()).push(piece@));
        } else {
            cur.push(s[i]);
        }
        i = i + 1;
    }
    assert(s@.subrange(0, s@.len() as int) =~= s@);
    (done, cur)
}

/// The lines of `text` and the ending of each, as [`lines_of`] and
/// [`endings_of`] describe.
pub fn split_lines(text: &[char]) -> (r: (Vec<Vec<char>>, Vec<Vec<char>>))
    ensures
        views_of(r.0@) == lines_of(text@),
        views_of(r.1@) == endings_of(text@),
{
    let mut lines: Vec<Vec<char>> = Vec::new();
    let mut endings: Vec<Vec<char>> = Vec::new();
    let mut cur: Vec<char> = Vec::new();
    let mut i: usize = 0;
    while i < text.len()
        invariant
            i <= text.len(),
            views_of(lines@) == split_state(text@.subrange(0, i as int), '\n').0.map_values(
                |l: Seq<char>| strip_cr(l),
            ),
            views_of(endings@) == split_state(text@.subrange(0, i as int), '\n').0.map_values(
                |l: Seq<char>| ending_of(l),
            ),
            cur@ == split_state(text@.subrange(0, i as int), '\n').1,
        decreases text.len() - i,
    {
        let ghost prev = text@.subrange(0, i as int);
        assert(text@.subrange(0, i + 1).drop_last() =~= prev);
        if text[i] == '\n' {
            let mut line = cur;
            let ghost before = line@;
            let n = line.len();
            let mut ending: Vec<char> = Vec::new();
            if n > 0 && line[n - 1] == '\r' {
                line.pop();
                assert(line@ =~= before.drop_last());
                ending.push('\r');
            }
            ending.push('\n');
            assert(line@ == strip_cr(before));
            assert(ending@ =~= ending_of(before));
            lines.push(line);
            endings.push(ending);
            cur = Vec::new();
            assert(views_of(lines@) =~= views_of(lines@.drop_last()).push(line@));
            assert(views_of(endings@) =~= views_of(endings@.drop_last()).push(ending@));
            assert(split_state(text@.subrange(0, i + 1), '\n').0.map_values(|l: Seq<char>| strip_cr(l))
                =~= split_state(prev, '\n').0.map_values(|l: Seq<char>| strip_cr(l)).push(strip_cr(before)));
            assert(split_state(text@.subrange(0, i + 1), '\n').0.map_values(|l: Seq<char>| ending_of(l))
                =~= split_state(prev, '\n').0.map_values(|l: Seq<char>| ending_of(l)).push(ending_of(before)));
        } else {
            cur.push(text[i]);
        }
        i = i + 1;
    }
    assert(text@.subrange(0, text@.len() as int) =~= text@);
    if cur.len() > 0 {
        let ghost before = views_of(lines@);
        let ghost before_endings = views_of(endings@);
        let none: Vec<char> = Vec::new();
        lines.push(cur);
        endings.push(none);
        assert(views_of(lines@) =~= before.push(cur@));
        assert(views_of(endings@) =~= before_endings.push(Seq::<char>::empty()));
    }
    (lines, endings)
}

/// A vector holding the characters of `s`.
pub fn copy_chars(s: &[char]) -> (r: Vec<char>)
    ensures
        r@ == s@,
{
    let mut r: Vec<char> = Vec::new();
    let mut i: usize = 0;
    while i < s.len()
        invariant
            i <= s.len(),
            r@ == s@.subrange(0, i as int),
        decreases s.len() - i,
    {
        r.push(s[i]);
        i = i + 1;
    }
    assert(r@ =~= s@);
    r
}

} // verus!
