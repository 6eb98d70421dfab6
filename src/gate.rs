//! Cheap lexical tests that decide whether a line is worth a full table scan.
use vstd::prelude::*;

verus! {

/// Characters that may stand right before a namespace for it to count as a
/// reference: a space, `<`, `/`, a quote, `@`, `:`, `[`, `;` or `(`.
pub open spec fn is_boundary_char(c: char) -> bool {
    c == ' ' || c == '<' || c == '/' || c == '"' || c == '@' || c == ':' || c == '['
        || c == '\'' || c == ';' || c == '('
}

/// `needle` occurs in `text` starting at index `i`.
pub open spec fn occurs_at(text: Seq<char>, needle: Seq<char>, i: int) -> bool {
    0 <= i && i + needle.len() <= text.len() && text.subrange(i, i + needle.len()) == needle
}

/// Some occurrence of `prefix` in `line` is preceded by a boundary character.
pub open spec fn has_bounded_prefix(line: Seq<char>, prefix: Seq<char>) -> bool {
    exists|i: int| 0 <= i < line.len() && is_boundary_char(#[trigger] line[i]) && occurs_at(line, prefix, i + 1)
}

/// The line holds a `.*`: a wildcard import or a glob directive.
pub open spec fn has_wildcard(line: Seq<char>) -> bool {
    exists|i: int| 0 <= i && i + 1 < line.len() && #[trigger] line[i] == '.' && line[i + 1] == '*'
}

pub open spec fn is_quote(c: char) -> bool {
    c == '"' || c == '\''
}

/// A character allowed between a coordinate's group prefix and its `:`.
pub open spec fn is_group_char(c: char) -> bool {
    ('a' <= c && c <= 'z') || c == '.'
}

/// A quoted dependency coordinate whose group starts with `prefix` begins at `i`:
/// a quote, `prefix`, a run of lower-case letters and dots, then `:`.
pub open spec fn coordinate_at(line: Seq<char>, prefix: Seq<char>, i: int) -> bool {
    &&& 0 <= i < line.len()
    &&& is_quote(line[i])
    &&& occurs_at(line, prefix, i + 1)
    &&& exists|j: int|
        i + 1 + prefix.len() <= j < line.len() && line[j] == ':' && forall|k: int|
            i + 1 + prefix.len() <= k < j ==> is_group_char(#[trigger] line[k])
}

pub open spec fn has_coordinate(line: Seq<char>, prefix: Seq<char>) -> bool {
    exists|i: int| coordinate_at(line, prefix, i)
}

pub fn occurs_at_exec(text: &[char], needle: &[char], i: usize) -> (r: bool)
    ensures
        r == occurs_at(text@, needle@, i as int),
{
    if i > text.len() || needle.len() > text.len() - i {
        return false;
    }
    let mut k: usize = 0;
    while k < needle.len()
        invariant
            i + needle.len() <= text.len(),
            k <= needle.len(),
            forall|m: int| 0 <= m < k ==> text@[i + m] == needle@[m],
        decreases needle.len() - k,
    {
        if text[i + k] != needle[k] {
            assert(text@.subrange(i as int, i + needle.len())[k as int] != needle@[k as int]);
            return false;
        }
        k = k + 1;
    }
    assert(text@.subrange(i as int, i + needle.len()) =~= needle@);
    true
}

pub fn is_boundary_char_exec(c: char) -> (r: bool)
    ensures
        r == is_boundary_char(c),
{
    c == ' ' || c == '<' || c == '/' || c == '"' || c == '@' || c == ':' || c == '[' || c == '\''
        || c == ';' || c == '('
}

/// Whether `prefix` occurs in `line` right after a boundary character.
pub fn bounded_prefix_match(line: &[char], prefix: &[char]) -> (r: bool)
    ensures
        r == has_bounded_prefix(line@, prefix@),
{
    let mut i: usize = 0;
    while i < line.len()
        invariant
            i <= line.len(),
            forall|m: int|
                0 <= m < i ==> !(is_boundary_char(#[trigger] line@[m]) && occurs_at(line@, prefix@, m + 1)),
        decreases line.len() - i,
    {
        if is_boundary_char_exec(line[i]) && occurs_at_exec(line, prefix, i + 1) {
            return true;
        }
        i = i + 1;
    }
    false
}

/// Whether the line holds `.*`.
pub fn wildcard_match(line: &[char]) -> (r: bool)
    ensures
        r == has_wildcard(line@),
{
    let mut i: usize = 0;
    while i < line.len()
        invariant
            i <= line.len(),
            forall|m: int| 0 <= m < i && m + 1 < line.len() ==> !(#[trigger] line@[m] == '.' && line@[m + 1] == '*'),
        decreases line.len() - i,
    {
        if line[i] == '.' && i + 1 < line.len() && line[i + 1] == '*' {
            return true;
        }
        i = i + 1;
    }
    false
}

/// Whether a quoted coordinate whose group starts with `prefix` begins at `i`.
pub fn coordinate_at_exec(line: &[char], prefix: &[char], i: usize) -> (r: bool)
    requires
        i < line.len(),
    ensures
        r == coordinate_at(line@, prefix@, i as int),
{
    if !(line[i] == '"' || line[i] == '\'') || !occurs_at_exec(line, prefix, i + 1) {
        return false;
    }
    let start = i + 1 + prefix.len();
    let mut j: usize = start;
    while j < line.len() && (('a' <= line[j] && line[j] <= 'z') || line[j] == '.')
        invariant
            start <= j <= line.len(),
            forall|k: int| start <= k < j ==> is_group_char(#[trigger] line@[k]),
        decreases line.len() - j,
    {
        j = j + 1;
    }
    if j < line.len() && line[j] == ':' {
        return true;
    }
    assert forall|j2: int|
        start <= j2 < line.len() && line@[j2] == ':' implies exists|k: int|
            start <= k < j2 && !is_group_char(#[trigger] line@[k]) by {
        if j2 < j {
            assert(is_group_char(line@[j2]));
        } else {
            assert(j2 != j);
            assert(!is_group_char(line@[j as int]));
        }
    }
    false
}

/// Whether the line holds a quoted coordinate whose group starts with `prefix`.
pub fn coordinate_match(line: &[char], prefix: &[char]) -> (r: bool)
    ensures
        r == has_coordinate(line@, prefix@),
{
    let mut i: usize = 0;
    while i < line.len()
        invariant
            i <= line.len(),
            forall|m: int| 0 <= m < i ==> !coordinate_at(line@, prefix@, m),
        decreases line.len() - i,
    {
        if coordinate_at_exec(line, prefix, i) {
            return true;
        }
        i = i + 1;
    }
    false
}

/// The Unicode white space characters, those that `char::is_whitespace` accepts.
pub open spec fn is_white_space(c: char) -> bool {
    c == '\t' || c == '\n' || c == '\u{B}' || c == '\u{C}' || c == '\r' || c == ' ' || c == '\u{85}'
        || c == '\u{A0}' || c == '\u{1680}' || ('\u{2000}' <= c && c <= '\u{200A}') || c == '\u{2028}'
        || c == '\u{2029}' || c == '\u{202F}' || c == '\u{205F}' || c == '\u{3000}'
}

pub open spec fn trim_start(s: Seq<char>) -> Seq<char>
    decreases s.len(),
{
    if s.len() > 0 && is_white_space(s[0]) {
        trim_start(s.drop_first())
    } else {
        s
    }
}

pub open spec fn trim_end(s: Seq<char>) -> Seq<char>
    decreases s.len(),
{
    if s.len() > 0 && is_white_space(s.last()) {
        trim_end(s.drop_last())
    } else {
        s
    }
}

/// `s` without its leading and trailing white space.
pub open spec fn trimmed(s: Seq<char>) -> Seq<char> {
    trim_end(trim_start(s))
}

pub fn is_white_space_exec(c: char) -> (r: bool)
    ensures
        r == is_white_space(c),
{
    c == '\t' || c == '\n' || c == '\u{B}' || c == '\u{C}' || c == '\r' || c == ' ' || c == '\u{85}'
        || c == '\u{A0}' || c == '\u{1680}' || ('\u{2000}' <= c && c <= '\u{200A}') || c == '\u{2028}'
        || c == '\u{2029}' || c == '\u{202F}' || c == '\u{205F}' || c == '\u{3000}'
}

/// The number of characters of `line` without its leading and trailing white space.
pub fn trimmed_len(line: &[char]) -> (r: usize)
    ensures
        r == trimmed(line@).len(),
{
    let n = line.len();
    let mut i: usize = 0;
    assert(line@.subrange(0, n as int) =~= line@);
    while i < n && is_white_space_exec(line[i])
        invariant
            i <= n,
            n == line.len(),
            trim_start(line@) == trim_start(line@.subrange(i as int, n as int)),
        decreases n - i,
    {
        assert(line@.subrange(i as int, n as int).drop_first() =~= line@.subrange(i + 1, n as int));
        i = i + 1;
    }
    assert(trim_start(line@.subrange(i as int, n as int)) == line@.subrange(i as int, n as int));
    let mut j: usize = n;
    while j > i && is_white_space_exec(line[j - 1])
        invariant
            i <= j <= n,
            n == line.len(),
            trimmed(line@) == trim_end(line@.subrange(i as int, j as int)),
        decreases j,
    {
        assert(line@.subrange(i as int, j as int).drop_last() =~= line@.subrange(i as int, j - 1));
        j = j - 1;
    }
    j - i
}

} // verus!
