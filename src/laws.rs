//! Properties of the matcher and the finder that hold for every input.
use vstd::prelude::*;
use crate::gate::{has_bounded_prefix, has_wildcard, is_boundary_char, occurs_at};
use crate::finder::round_robin_share;
use crate::run::{non_zero, total};
use crate::mappings::{Category, PatternTables};
use crate::matcher::{class_gate, line_outcome, scan_file, scan_lines};
use crate::text::{ending_of, endings_of, lines_of, split_state, strip_cr};

verus! {

/// The length gate: a line shorter than a category's shortest pattern never
/// passes that category's gate, and a line at least that long passes it exactly
/// when it mentions one of the category's namespaces after a boundary character.
pub proof fn lemma_length_gate(cat: &Category, line: Seq<char>)
    ensures
        line.len() < cat.min_match_len ==> !class_gate(cat, line),
        line.len() >= cat.min_match_len ==> (class_gate(cat, line) <==> exists|p: int|
            0 <= p < cat.prefixes.len() && has_bounded_prefix(line, #[trigger] cat.prefix_views()[p])),
{
}

/// A line shorter than the shortest pattern of every class category is written
/// back unchanged, and is neither a replacement nor a wildcard import.
pub proof fn lemma_short_line_untouched(t: &PatternTables, line: Seq<char>)
    requires
        line.len() < t.support.min_match_len,
        line.len() < t.arch.min_match_len,
        line.len() < t.databinding.min_match_len,
    ensures
        line_outcome(t, line) == (line, false, false),
{
}

/// A line holding a `.*` is never rewritten. Where a category's gate lets it
/// through, it is reported as a wildcard import.
pub proof fn lemma_wildcard_never_rewritten(t: &PatternTables, line: Seq<char>)
    requires
        has_wildcard(line),
    ensures
        line_outcome(t, line).0 == line,
        !line_outcome(t, line).1,
        (class_gate(&t.support, line) || class_gate(&t.arch, line) || class_gate(&t.databinding, line))
            ==> line_outcome(t, line).2,
{
}

/// No occurrence of `ns` in `line` comes right after a boundary character.
pub open spec fn only_unbounded(line: Seq<char>, ns: Seq<char>) -> bool {
    forall|i: int| 0 <= i < line.len() && occurs_at(line, ns, i + 1) ==> !is_boundary_char(#[trigger] line[i])
}

/// A line that mentions the deprecated namespaces only inside longer names (no
/// boundary character right before them) is never matched: it is written back
/// unchanged and is not a wildcard import either.
pub proof fn lemma_unbounded_namespace_ignored(t: &PatternTables, line: Seq<char>)
    requires
        t.standard_prefixes(),
        only_unbounded(line, t.support.prefix_views()[0]),
        only_unbounded(line, t.arch.prefix_views()[0]),
        only_unbounded(line, t.databinding.prefix_views()[0]),
    ensures
        line_outcome(t, line) == (line, false, false),
{
    assert(t.support.prefix_views().len() == t.support.prefixes@.len());
    assert(t.arch.prefix_views().len() == t.arch.prefixes@.len());
    assert(t.databinding.prefix_views().len() == t.databinding.prefixes@.len());
    assert(!has_bounded_prefix(line, t.support.prefix_views()[0]));
    assert(!has_bounded_prefix(line, t.arch.prefix_views()[0]));
    assert(!has_bounded_prefix(line, t.databinding.prefix_views()[0]));
}

/// The lines put back together, each followed by its ending.
pub open spec fn joined(lines: Seq<Seq<char>>, endings: Seq<Seq<char>>) -> Seq<char>
    decreases lines.len(),
{
    if lines.len() == 0 {
        Seq::empty()
    } else {
        joined(lines.drop_last(), endings.drop_last()) + lines.last() + endings.last()
    }
}

proof fn lemma_split_state_joined(text: Seq<char>)
    ensures
        ({
            let (done, cur) = split_state(text, '\n');
            joined(
                done.map_values(|l: Seq<char>| strip_cr(l)),
                done.map_values(|l: Seq<char>| ending_of(l)),
            ) + cur == text
        }),
    decreases text.len(),
{
    if text.len() > 0 {
        let prev = text.drop_last();
        lemma_split_state_joined(prev);
        let (done, cur) = split_state(prev, '\n');
        let lines = done.map_values(|l: Seq<char>| strip_cr(l));
        let ends = done.map_values(|l: Seq<char>| ending_of(l));
        if text.last() == '\n' {
            let lines2 = done.push(cur).map_values(|l: Seq<char>| strip_cr(l));
            let ends2 = done.push(cur).map_values(|l: Seq<char>| ending_of(l));
            assert(lines2.drop_last() =~= lines);
            assert(ends2.drop_last() =~= ends);
            assert(split_state(text, '\n') == (done.push(cur), Seq::<char>::empty()));
            assert(lines2.last() == strip_cr(cur));
            assert(ends2.last() == ending_of(cur));
            assert(strip_cr(cur) + ending_of(cur) =~= cur.push('\n'));
            assert(joined(lines2, ends2) == joined(lines, ends) + strip_cr(cur) + ending_of(cur));
            assert(joined(lines, ends) + strip_cr(cur) + ending_of(cur) =~= (joined(lines, ends) + cur).push('\n'));
            assert(prev.push('\n') =~= text);
            assert(joined(lines2, ends2) + Seq::<char>::empty() =~= text);
        } else {
            assert(split_state(text, '\n') == (done, cur.push(text.last())));
            assert((joined(lines, ends) + cur).push(text.last()) =~= joined(lines, ends) + cur.push(text.last()));
            assert(prev.push(text.last()) =~= text);
        }
    }
}

/// Splitting a text into lines and their endings loses nothing: put back
/// together, they give the text again.
pub proof fn lemma_lines_rejoin(text: Seq<char>)
    ensures
        joined(lines_of(text), endings_of(text)) == text,
{
    lemma_split_state_joined(text);
    let (done, cur) = split_state(text, '\n');
    let lines = done.map_values(|l: Seq<char>| strip_cr(l));
    let ends = done.map_values(|l: Seq<char>| ending_of(l));
    if cur.len() > 0 {
        assert(lines_of(text).drop_last() =~= lines);
        assert(endings_of(text).drop_last() =~= ends);
        assert(joined(lines_of(text), endings_of(text)) =~= joined(lines, ends) + cur + Seq::<char>::empty());
    } else {
        assert(cur =~= Seq::<char>::empty());
        assert(joined(lines, ends) + cur =~= joined(lines, ends));
    }
}

proof fn lemma_scan_no_replacement(t: &PatternTables, lines: Seq<Seq<char>>, endings: Seq<Seq<char>>, check: bool)
    requires
        forall|i: int| 0 <= i < lines.len() ==> !(#[trigger] line_outcome(t, lines[i])).1,
    ensures
        scan_lines(t, lines, endings, check).replacements == 0,
        scan_lines(t, lines, endings, check).output == joined(lines, endings),
    decreases lines.len(),
{
    if lines.len() > 0 {
        let rest = lines.drop_last();
        assert forall|i: int| 0 <= i < rest.len() implies !(#[trigger] line_outcome(t, rest[i])).1 by {
            assert(rest[i] == lines[i]);
        }
        lemma_scan_no_replacement(t, rest, endings.drop_last(), check);
        assert(!line_outcome(t, lines[lines.len() - 1]).1);
        assert(line_outcome(t, lines.last()).0 == lines.last());
    }
}

/// A text in which no line is rewritten (already migrated) scans to zero
/// replacements, so a second run leaves the file as it is: no new contents are
/// produced and nothing is written. The text the scan puts together is then
/// the original text, byte for byte.
pub proof fn lemma_migrated_text_untouched(t: &PatternTables, path: Seq<char>, contents: Seq<char>)
    requires
        forall|i: int| 0 <= i < lines_of(contents).len() ==> !(#[trigger] line_outcome(t, lines_of(contents)[i])).1,
    ensures
        scan_file(t, path, contents).replacements == 0,
        scan_file(t, path, contents).output == contents,
{
    lemma_scan_no_replacement(t, lines_of(contents), endings_of(contents), crate::paths::may_declare_artifacts(path));
    lemma_lines_rejoin(contents);
}

/// The sum of the round-robin shares of the first `w` matchers.
pub open spec fn shares_upto(count: int, n: int, w: int) -> int
    decreases w,
{
    if w <= 0 {
        0
    } else {
        shares_upto(count, n, w - 1) + round_robin_share(count, n, w - 1)
    }
}

proof fn lemma_shares_prefix(count: int, n: int, w: int)
    requires
        count >= 0,
        n > 0,
        0 <= w <= n,
    ensures
        shares_upto(count, n, w) == w * (count / n) + if w < count % n { w } else { count % n },
    decreases w,
{
    vstd::arithmetic::div_mod::lemma_mod_bound(count, n);
    let q = count / n;
    let r = count % n;
    if w > 0 {
        lemma_shares_prefix(count, n, w - 1);
        assert(shares_upto(count, n, w) == shares_upto(count, n, w - 1) + q + if w - 1 < r { 1int } else { 0int });
        assert(w * q == (w - 1) * q + q) by (nonlinear_arith);
    } else {
        assert(w * q == 0) by (nonlinear_arith)
            requires
                w == 0,
        ;
    }
}

/// Dealing `count` paths round-robin to `n` matchers hands out every path
/// exactly once: the shares add up to `count`.
pub proof fn lemma_round_robin_covers(count: int, n: int)
    requires
        count >= 0,
        n > 0,
    ensures
        shares_upto(count, n, n) == count,
{
    lemma_shares_prefix(count, n, n);
    assert(count == n * (count / n) + count % n) by (nonlinear_arith)
        requires
            n > 0,
    {
        vstd::arithmetic::div_mod::lemma_fundamental_div_mod(count, n);
    }
    assert(count % n < n) by {
        vstd::arithmetic::div_mod::lemma_mod_bound(count, n);
    }
}

proof fn lemma_total_remove(s: Seq<usize>, j: int)
    requires
        0 <= j < s.len(),
    ensures
        total(s) == total(s.remove(j)) + s[j],
        non_zero(s) == non_zero(s.remove(j)) + if s[j] > 0 { 1int } else { 0int },
    decreases s.len(),
{
    if j == s.len() - 1 {
        assert(s.remove(j) =~= s.drop_last());
    } else {
        lemma_total_remove(s.drop_last(), j);
        assert(s.remove(j).drop_last() =~= s.drop_last().remove(j));
        assert(s.remove(j).last() == s.last());
    }
}

/// The totals of a run do not depend on the order in which the matchers'
/// results arrive: any two orders of the same per-file counts give the same
/// number of replacements and the same number of files changed.
pub proof fn lemma_totals_ignore_order(a: Seq<usize>, b: Seq<usize>)
    requires
        a.to_multiset() == b.to_multiset(),
    ensures
        total(a) == total(b),
        non_zero(a) == non_zero(b),
    decreases a.len(),
{
    broadcast use vstd::seq_lib::group_to_multiset_ensures;

    if a.len() == 0 {
        assert(b.to_multiset().len() == 0);
        assert(b =~= Seq::<usize>::empty());
    } else {
        let x = a.last();
        assert(a.to_multiset().count(x) > 0) by {
            assert(a.contains(x)) by {
                assert(a[a.len() - 1] == x);
            }
        }
        assert(b.contains(x));
        let j = choose|j: int| 0 <= j < b.len() && b[j] == x;
        assert(a.remove(a.len() - 1) =~= a.drop_last());
        assert(a.drop_last().to_multiset() =~= a.to_multiset().remove(x));
        assert(b.remove(j).to_multiset() =~= b.to_multiset().remove(x));
        lemma_totals_ignore_order(a.drop_last(), b.remove(j));
        lemma_total_remove(b, j);
    }
}

} // verus!
